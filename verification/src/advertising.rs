//! The advertising payload of a BLE packet: a run of AD structures, each a
//! length byte, a type byte and `length - 1` data bytes, read into the
//! device names, company identifier, transmit power and service UUIDs.

use vstd::prelude::*;
use vstd::utf8::{valid_utf8, decode_utf8};
use crate::hex_text::{hex_decode_spec, upper_pair, decode_hex, upper_hex_digit};
use crate::text::{char_lists, join_with, join_char_lists, string_from_chars};

verus! {

/// The AD type of the complete local name.
pub const AD_COMPLETE_NAME: u8 = 0x09;
/// The AD type of the shortened local name.
pub const AD_SHORT_NAME: u8 = 0x08;
/// The AD type of manufacturer specific data.
pub const AD_MANUFACTURER: u8 = 0xFF;
/// The AD type of the transmit power level.
pub const AD_TX_POWER: u8 = 0x0A;
/// The AD types of incomplete and complete lists of 16-bit service UUIDs.
pub const AD_UUID16_INCOMPLETE: u8 = 0x02;
/// See [`AD_UUID16_INCOMPLETE`].
pub const AD_UUID16_COMPLETE: u8 = 0x03;
/// The AD types of incomplete and complete lists of 128-bit service UUIDs.
pub const AD_UUID128_INCOMPLETE: u8 = 0x06;
/// See [`AD_UUID128_INCOMPLETE`].
pub const AD_UUID128_COMPLETE: u8 = 0x07;

/// The company identifier reported when no manufacturer data is present.
pub const NO_COMPANY_ID: i32 = -1;
/// The power level reported when no transmit power is present (out of range on purpose).
pub const NO_POWER_LEVEL: i32 = -255;

/// The text `Unknown`, reported for a name or manufacturer that is not known.
pub open spec fn unknown_text() -> Seq<char> {
    seq!['U', 'n', 'k', 'n', 'o', 'w', 'n']
}

/// The text `None`, reported when no service UUID is present.
pub open spec fn none_text() -> Seq<char> {
    seq!['N', 'o', 'n', 'e']
}

/// The separator between service UUIDs: a comma and a space.
pub open spec fn uuid_separator() -> Seq<char> {
    seq![',', ' ']
}

/// What the reading of an advertising payload has gathered so far.
pub struct AdvState {
    pub long_name: Seq<char>,
    pub short_name: Seq<char>,
    pub company_id: i32,
    pub power_level: i32,
    pub uuids: Seq<Seq<char>>,
}

/// The state before any AD structure is read.
pub open spec fn initial_adv_state() -> AdvState {
    AdvState {
        long_name: unknown_text(),
        short_name: unknown_text(),
        company_id: NO_COMPANY_ID,
        power_level: NO_POWER_LEVEL,
        uuids: Seq::empty(),
    }
}

/// A byte read as a two's-complement signed value.
pub open spec fn signed_byte(b: u8) -> int {
    if b < 128 {
        b as int
    } else {
        b as int - 256
    }
}

/// A 16-bit UUID sent low byte first, written as four upper-case digits
/// (`{:04X}` of `hi << 8 | lo`).
pub open spec fn uuid16_text(lo: u8, hi: u8) -> Seq<char> {
    upper_pair(hi) + upper_pair(lo)
}

/// A UUID sent least significant byte first, written most significant byte
/// first with two upper-case digits per byte.
pub open spec fn uuid128_text(chunk: Seq<u8>) -> Seq<char>
    decreases chunk.len(),
{
    if chunk.len() == 0 {
        Seq::empty()
    } else {
        upper_pair(chunk.last()) + uuid128_text(chunk.drop_last())
    }
}

/// The 16-bit UUIDs of a list, one per whole pair of bytes.
pub open spec fn uuids16_of(ad: Seq<u8>) -> Seq<Seq<char>> {
    Seq::new(ad.len() / 2, |k: int| uuid16_text(ad[2 * k], ad[2 * k + 1]))
}

/// The 128-bit UUIDs of a list, one per whole run of sixteen bytes.
pub open spec fn uuids128_of(ad: Seq<u8>) -> Seq<Seq<char>> {
    Seq::new(ad.len() / 16, |k: int| uuid128_text(ad.subrange(16 * k, 16 * k + 16)))
}

/// The effect of one AD structure of type `ad_type` and data `ad`.
pub open spec fn apply_ad_structure(st: AdvState, ad_type: u8, ad: Seq<u8>) -> AdvState {
    if ad_type == AD_COMPLETE_NAME {
        if valid_utf8(ad) {
            AdvState { long_name: decode_utf8(ad), ..st }
        } else {
            st
        }
    } else if ad_type == AD_SHORT_NAME {
        if valid_utf8(ad) {
            AdvState { short_name: decode_utf8(ad), ..st }
        } else {
            st
        }
    } else if ad_type == AD_MANUFACTURER {
        if ad.len() >= 2 {
            AdvState { company_id: (ad[1] as int * 256 + ad[0] as int) as i32, ..st }
        } else {
            st
        }
    } else if ad_type == AD_TX_POWER {
        AdvState { power_level: signed_byte(ad[0]) as i32, ..st }
    } else if ad_type == AD_UUID16_INCOMPLETE || ad_type == AD_UUID16_COMPLETE {
        AdvState { uuids: st.uuids + uuids16_of(ad), ..st }
    } else if ad_type == AD_UUID128_INCOMPLETE || ad_type == AD_UUID128_COMPLETE {
        AdvState { uuids: st.uuids + uuids128_of(ad), ..st }
    } else {
        st
    }
}

/// Reads the AD structures of `data` from offset `i` on: a zero length
/// byte ends the payload, as does its end.
pub open spec fn ad_walk(data: Seq<u8>, i: int, st: AdvState) -> AdvState
    decreases data.len() - i,
{
    if i < 0 || i >= data.len() {
        st
    } else {
        let len = data[i] as int;
        if len == 0 || i + len + 1 > data.len() {
            st
        } else {
            ad_walk(
                data,
                i + len + 1,
                apply_ad_structure(st, data[i + 1], data.subrange(i + 2, i + len + 1)),
            )
        }
    }
}

/// Whether every AD structure from offset `i` on fits in `data`, and every
/// transmit power structure holds a byte.
pub open spec fn ad_structures_ok(data: Seq<u8>, i: int) -> bool
    decreases data.len() - i,
{
    if i < 0 || i >= data.len() {
        true
    } else {
        let len = data[i] as int;
        if len == 0 {
            true
        } else if i + len + 1 > data.len() {
            false
        } else if data[i + 1] == AD_TX_POWER && len == 1 {
            false
        } else {
            ad_structures_ok(data, i + len + 1)
        }
    }
}

/// The state after reading a whole payload.
pub open spec fn adv_state_of(data: Seq<u8>) -> AdvState {
    ad_walk(data, 0, initial_adv_state())
}

/// The text of a list of UUIDs: `None` when it is empty, else the UUIDs
/// separated by a comma and a space.
pub open spec fn uuid_list_text(list: Seq<Seq<char>>) -> Seq<char> {
    if list.len() == 0 {
        none_text()
    } else {
        join_with(list, uuid_separator())
    }
}

/// The attributes read from an advertising payload.
pub struct AdvertisingFields {
    pub long_device_name: String,
    pub short_device_name: String,
    pub company_id: i32,
    pub power_level: i32,
    pub uuids: String,
}

impl AdvertisingFields {
    /// Whether these fields are those of the reading state `st`.
    pub open spec fn holds(&self, st: AdvState) -> bool {
        &&& self.long_device_name@ == st.long_name
        &&& self.short_device_name@ == st.short_name
        &&& self.company_id == st.company_id
        &&& self.power_level == st.power_level
        &&& self.uuids@ == uuid_list_text(st.uuids)
    }
}

/// Converts bytes to a string when they are valid UTF-8.
///
/// Wraps `String::from_utf8`, which its documentation says returns the
/// string when the bytes are valid UTF-8 and an error otherwise; the
/// contract states that with vstd's definition of UTF-8 decoding.
#[verifier::external_body]
fn string_from_utf8(bytes: Vec<u8>) -> (res: Option<String>)
    ensures
        match res {
            Some(s) => valid_utf8(bytes@) && s@ == decode_utf8(bytes@),
            None => !valid_utf8(bytes@),
        },
{
    String::from_utf8(bytes).ok()
}

/// A new string holding `Unknown`.
pub fn unknown_string() -> (res: String)
    ensures
        res@ == unknown_text(),
{
    let v: Vec<char> = vec!['U', 'n', 'k', 'n', 'o', 'w', 'n'];
    assert(v@ =~= unknown_text());
    string_from_chars(&v)
}

/// A copy of `data[start..end]`.
fn copy_range(data: &Vec<u8>, start: usize, end: usize) -> (res: Vec<u8>)
    requires
        start <= end <= data.len(),
    ensures
        res@ == data@.subrange(start as int, end as int),
{
    let mut res: Vec<u8> = Vec::new();
    let mut i = start;
    while i < end
        invariant
            start <= i <= end <= data.len(),
            res@ == data@.subrange(start as int, i as int),
        decreases end - i,
    {
        res.push(data[i]);
        i = i + 1;
        assert(res@ =~= data@.subrange(start as int, i as int));
    }
    res
}

/// Appends the two upper-case digits of `b`.
fn push_upper_pair(out: &mut Vec<char>, b: u8)
    ensures
        final(out)@ == old(out)@ + upper_pair(b),
{
    out.push(upper_hex_digit(b / 16));
    out.push(upper_hex_digit(b % 16));
    assert(final(out)@ =~= old(out)@ + upper_pair(b));
}

/// The text of the 16-bit UUID in `data[at]` (low byte) and `data[at + 1]`.
fn uuid16_chars(data: &Vec<u8>, at: usize) -> (res: Vec<char>)
    requires
        at + 2 <= data.len(),
    ensures
        res@ == uuid16_text(data@[at as int], data@[at + 1]),
{
    let mut res: Vec<char> = Vec::new();
    push_upper_pair(&mut res, data[at + 1]);
    push_upper_pair(&mut res, data[at]);
    assert(res@ =~= uuid16_text(data@[at as int], data@[at + 1]));
    res
}

/// The text of the 128-bit UUID in `data[at..at + 16]`.
fn uuid128_chars(data: &Vec<u8>, at: usize) -> (res: Vec<char>)
    requires
        at + 16 <= data.len(),
    ensures
        res@ == uuid128_text(data@.subrange(at as int, at + 16)),
{
    let ghost chunk = data@.subrange(at as int, at + 16);
    let mut res: Vec<char> = Vec::new();
    let mut j: usize = 16;
    assert(chunk.take(16) =~= chunk);
    while j > 0
        invariant
            j <= 16,
            at + 16 <= data.len(),
            chunk == data@.subrange(at as int, at + 16),
            res@ + uuid128_text(chunk.take(j as int)) == uuid128_text(chunk),
        decreases j,
    {
        let ghost before = res@;
        push_upper_pair(&mut res, data[at + j - 1]);
        assert(chunk.take(j as int).drop_last() =~= chunk.take(j - 1));
        assert(chunk.take(j as int).last() == data@[at + j - 1]);
        assert(res@ + uuid128_text(chunk.take(j - 1)) =~= before + uuid128_text(chunk.take(j as int)));
        j = j - 1;
    }
    assert(uuid128_text(chunk.take(0)) =~= Seq::<char>::empty());
    assert(res@ =~= res@ + uuid128_text(chunk.take(0)));
    res
}

/// Appends the 16-bit UUIDs of `data[start..end]`.
fn push_uuids16(data: &Vec<u8>, start: usize, end: usize, uuids: &mut Vec<Vec<char>>)
    requires
        start <= end <= data.len(),
    ensures
        char_lists(final(uuids)@) == char_lists(old(uuids)@) + uuids16_of(
            data@.subrange(start as int, end as int),
        ),
{
    let ghost ad = data@.subrange(start as int, end as int);
    let mut p = start;
    let mut k: usize = 0;
    while end - p >= 2
        invariant
            start <= p <= end <= data.len(),
            p == start + 2 * k,
            ad == data@.subrange(start as int, end as int),
            char_lists(uuids@) == char_lists(old(uuids)@) + Seq::new(
                k as nat,
                |m: int| uuid16_text(ad[2 * m], ad[2 * m + 1]),
            ),
        decreases end - p,
    {
        let u = uuid16_chars(data, p);
        let ghost before = char_lists(uuids@);
        uuids.push(u);
        assert(char_lists(uuids@) =~= before.push(u@));
        k = k + 1;
        p = p + 2;
        assert(Seq::new(k as nat, |m: int| uuid16_text(ad[2 * m], ad[2 * m + 1])) =~= Seq::new(
            (k - 1) as nat,
            |m: int| uuid16_text(ad[2 * m], ad[2 * m + 1]),
        ).push(uuid16_text(ad[2 * (k - 1)], ad[2 * (k - 1) + 1])));
        assert(char_lists(uuids@) =~= char_lists(old(uuids)@) + Seq::new(
            k as nat,
            |m: int| uuid16_text(ad[2 * m], ad[2 * m + 1]),
        ));
    }
    assert(k == ad.len() / 2);
}

/// Appends the 128-bit UUIDs of `data[start..end]`.
fn push_uuids128(data: &Vec<u8>, start: usize, end: usize, uuids: &mut Vec<Vec<char>>)
    requires
        start <= end <= data.len(),
    ensures
        char_lists(final(uuids)@) == char_lists(old(uuids)@) + uuids128_of(
            data@.subrange(start as int, end as int),
        ),
{
    let ghost ad = data@.subrange(start as int, end as int);
    let mut p = start;
    let mut k: usize = 0;
    while end - p >= 16
        invariant
            start <= p <= end <= data.len(),
            p == start + 16 * k,
            ad == data@.subrange(start as int, end as int),
            char_lists(uuids@) == char_lists(old(uuids)@) + Seq::new(
                k as nat,
                |m: int| uuid128_text(ad.subrange(16 * m, 16 * m + 16)),
            ),
        decreases end - p,
    {
        let u = uuid128_chars(data, p);
        assert(ad.subrange(16 * k, 16 * k + 16) =~= data@.subrange(p as int, p + 16));
        let ghost before = char_lists(uuids@);
        uuids.push(u);
        assert(char_lists(uuids@) =~= before.push(u@));
        k = k + 1;
        p = p + 16;
        assert(Seq::new(k as nat, |m: int| uuid128_text(ad.subrange(16 * m, 16 * m + 16))) =~= Seq::new(
            (k - 1) as nat,
            |m: int| uuid128_text(ad.subrange(16 * m, 16 * m + 16)),
        ).push(uuid128_text(ad.subrange(16 * (k - 1), 16 * (k - 1) + 16))));
        assert(char_lists(uuids@) =~= char_lists(old(uuids)@) + Seq::new(
            k as nat,
            |m: int| uuid128_text(ad.subrange(16 * m, 16 * m + 16)),
        ));
    }
    assert(k == ad.len() / 16);
}

/// The reading state that the given values stand for.
pub open spec fn state_of(
    long_name: Seq<char>,
    short_name: Seq<char>,
    company_id: i32,
    power_level: i32,
    uuids: Seq<Vec<char>>,
) -> AdvState {
    AdvState { long_name, short_name, company_id, power_level, uuids: char_lists(uuids) }
}

/// Applies the AD structure of type `ad_type` held in `data[start..end]`.
fn apply_structure(
    data: &Vec<u8>,
    ad_type: u8,
    start: usize,
    end: usize,
    long_name: &mut String,
    short_name: &mut String,
    company_id: &mut i32,
    power_level: &mut i32,
    uuids: &mut Vec<Vec<char>>,
)
    requires
        start <= end <= data.len(),
        ad_type == AD_TX_POWER ==> start < end,
    ensures
        state_of(final(long_name)@, final(short_name)@, *final(company_id), *final(power_level), final(uuids)@)
            == apply_ad_structure(
            state_of(old(long_name)@, old(short_name)@, *old(company_id), *old(power_level), old(uuids)@),
            ad_type,
            data@.subrange(start as int, end as int),
        ),
{
    let ghost ad = data@.subrange(start as int, end as int);
    if ad_type == AD_COMPLETE_NAME {
        if let Some(name) = string_from_utf8(copy_range(data, start, end)) {
            *long_name = name;
        }
    } else if ad_type == AD_SHORT_NAME {
        if let Some(name) = string_from_utf8(copy_range(data, start, end)) {
            *short_name = name;
        }
    } else if ad_type == AD_MANUFACTURER {
        if end - start >= 2 {
            assert(ad[0] == data@[start as int] && ad[1] == data@[start + 1]);
            *company_id = data[start + 1] as i32 * 256 + data[start] as i32;
        }
    } else if ad_type == AD_TX_POWER {
        let b = data[start];
        assert(ad[0] == b);
        *power_level = if b < 128 { b as i32 } else { b as i32 - 256 };
    } else if ad_type == AD_UUID16_INCOMPLETE || ad_type == AD_UUID16_COMPLETE {
        push_uuids16(data, start, end, uuids);
    } else if ad_type == AD_UUID128_INCOMPLETE || ad_type == AD_UUID128_COMPLETE {
        push_uuids128(data, start, end, uuids);
    }
}

/// Reads the AD structures of the advertising payload given in hexadecimal.
///
/// A zero length byte, or the end of the payload, ends the reading. Names
/// that are not valid UTF-8 are passed over, as is manufacturer data of
/// fewer than two bytes; the company identifier is read low byte first.
pub fn parse_advertising_data(advertising_data_hex: &str) -> (res: AdvertisingFields)
    requires
        hex_decode_spec(advertising_data_hex@) is Some,
        ad_structures_ok(hex_decode_spec(advertising_data_hex@).unwrap(), 0),
    ensures
        res.holds(adv_state_of(hex_decode_spec(advertising_data_hex@).unwrap())),
{
    let data = decode_hex(advertising_data_hex).unwrap();
    let ghost d = data@;
    let n = data.len();
    let mut long_name = unknown_string();
    let mut short_name = unknown_string();
    let mut company_id: i32 = NO_COMPANY_ID;
    let mut power_level: i32 = NO_POWER_LEVEL;
    let mut uuids: Vec<Vec<char>> = Vec::new();
    let mut index: usize = 0;
    assert(char_lists(uuids@) =~= Seq::<Seq<char>>::empty());
    while index < n && data[index] != 0
        invariant
            n == data.len(),
            d == data@,
            index <= n,
            ad_structures_ok(d, index as int),
            ad_walk(d, index as int, state_of(long_name@, short_name@, company_id, power_level, uuids@))
                == ad_walk(d, 0, initial_adv_state()),
        decreases n - index,
    {
        let length = data[index] as usize;
        let ad_type = data[index + 1];
        let start = index + 2;
        let end = index + length + 1;
        apply_structure(
            &data,
            ad_type,
            start,
            end,
            &mut long_name,
            &mut short_name,
            &mut company_id,
            &mut power_level,
            &mut uuids,
        );
        index = end;
    }
    let separator: Vec<char> = vec![',', ' '];
    let text = if uuids.len() == 0 {
        let v: Vec<char> = vec!['N', 'o', 'n', 'e'];
        assert(v@ =~= none_text());
        v
    } else {
        assert(separator@ =~= uuid_separator());
        join_char_lists(&uuids, &separator)
    };
    AdvertisingFields {
        long_device_name: long_name,
        short_device_name: short_name,
        company_id,
        power_level,
        uuids: string_from_chars(&text),
    }
}

} // verus!

verus! {

/// The company identifier is read little-endian: the value stated for a
/// manufacturer structure is `(ad[1] as i32) << 8 | (ad[0] as i32)`.
pub proof fn lemma_company_id_bits(lo: u8, hi: u8)
    ensures
        (hi as int * 256 + lo as int) as i32 == ((hi as i32) << 8i32) | (lo as i32),
        0 <= hi as int * 256 + lo as int <= 0xFFFF,
{
    assert(((hi as i32) << 8i32) | (lo as i32) == (hi as i32) * 256 + (lo as i32)) by (bit_vector);
}

/// The power level stated for a transmit power structure is its byte read
/// as an `i8`.
pub proof fn lemma_power_level_cast(b: u8)
    ensures
        signed_byte(b) == (b as i8) as int,
        -128 <= signed_byte(b) <= 127,
{
    assert(b < 128 ==> (b as i8) as int == b as int) by (bit_vector);
    assert(b >= 128 ==> (b as i8) as int == b as int - 256) by (bit_vector);
}

} // verus!

verus! {

/// The bytes of one AD structure of type `ad_type` and data `ad`: its
/// length byte (the type byte and the data), the type byte, the data.
pub open spec fn ad_structure(ad_type: u8, ad: Seq<u8>) -> Seq<u8> {
    seq![(ad.len() + 1) as u8, ad_type] + ad
}

/// Whether the AD structures of `data` from offset `i` on end exactly at
/// its end, none of them with a zero length byte.
pub open spec fn ad_walk_exact(data: Seq<u8>, i: int) -> bool
    decreases data.len() - i,
{
    if i < 0 || i > data.len() {
        false
    } else if i == data.len() {
        true
    } else {
        let len = data[i] as int;
        len != 0 && i + len + 1 <= data.len() && ad_walk_exact(data, i + len + 1)
    }
}

/// Reading bytes placed after others, from an offset past the others, is
/// reading them alone.
proof fn lemma_walk_shift(pre: Seq<u8>, rest: Seq<u8>, j: int, st: AdvState)
    requires
        0 <= j,
    ensures
        ad_walk(pre + rest, pre.len() + j, st) == ad_walk(rest, j, st),
    decreases rest.len() - j,
{
    let all = pre + rest;
    let i = pre.len() + j;
    if j < rest.len() {
        assert(all[i] == rest[j]);
        let len = rest[j] as int;
        if len != 0 && j + len + 1 <= rest.len() {
            assert(all[i + 1] == rest[j + 1]);
            assert(all.subrange(i + 2, i + len + 1) =~= rest.subrange(j + 2, j + len + 1));
            lemma_walk_shift(
                pre,
                rest,
                j + len + 1,
                apply_ad_structure(st, rest[j + 1], rest.subrange(j + 2, j + len + 1)),
            );
        }
    }
}

/// Reading a payload that is `data` followed by `rest`, where the
/// structures of `data` end exactly at its end, reads `data` and then
/// `rest` from where `data` left off.
proof fn lemma_walk_append(data: Seq<u8>, rest: Seq<u8>, i: int, st: AdvState)
    requires
        ad_walk_exact(data, i),
    ensures
        ad_walk(data + rest, i, st) == ad_walk(rest, 0, ad_walk(data, i, st)),
    decreases data.len() - i,
{
    let all = data + rest;
    if i == data.len() {
        lemma_walk_shift(data, rest, 0, st);
    } else {
        let len = data[i] as int;
        assert(all[i] == data[i]);
        assert(all[i + 1] == data[i + 1]);
        assert(all.subrange(i + 2, i + len + 1) =~= data.subrange(i + 2, i + len + 1));
        lemma_walk_append(
            data,
            rest,
            i + len + 1,
            apply_ad_structure(st, data[i + 1], data.subrange(i + 2, i + len + 1)),
        );
    }
}

/// Reading a payload ending in one more structure applies that structure
/// to what the rest gave.
proof fn lemma_append_structure(data: Seq<u8>, ad_type: u8, ad: Seq<u8>)
    requires
        ad_walk_exact(data, 0),
        ad.len() < 255,
    ensures
        adv_state_of(data + ad_structure(ad_type, ad)) == apply_ad_structure(
            adv_state_of(data),
            ad_type,
            ad,
        ),
{
    let s = ad_structure(ad_type, ad);
    lemma_walk_append(data, s, 0, initial_adv_state());
    let st = adv_state_of(data);
    assert(s[0] as int == ad.len() + 1);
    assert(s[1] == ad_type);
    assert(s.subrange(2, 2 + ad.len() as int) =~= ad);
    let next = apply_ad_structure(st, ad_type, ad);
    assert(ad_walk(s, s.len() as int, next) == next);
}

/// A payload with no AD structure gives the defaults: both names
/// `Unknown`, no company (-1), no power level (-255), no UUID.
pub proof fn lemma_empty_payload()
    ensures
        adv_state_of(Seq::empty()).long_name == unknown_text(),
        adv_state_of(Seq::empty()).short_name == unknown_text(),
        adv_state_of(Seq::empty()).company_id == -1,
        adv_state_of(Seq::empty()).power_level == -255,
        adv_state_of(Seq::empty()).uuids.len() == 0,
        uuid_list_text(adv_state_of(Seq::empty()).uuids) == none_text(),
{
}

/// A manufacturer structure with at least two data bytes sets the company
/// identifier to its first two bytes read low byte first, whatever bytes
/// follow them; a structure of another type leaves it as it was.
pub proof fn lemma_company_id_law(data: Seq<u8>, ad_type: u8, ad: Seq<u8>)
    requires
        ad_walk_exact(data, 0),
        ad.len() < 255,
    ensures
        ad_type == 0xFF && ad.len() >= 2 ==> adv_state_of(data + ad_structure(ad_type, ad)).company_id
            == ad[1] as int * 256 + ad[0] as int,
        ad_type != 0xFF ==> adv_state_of(data + ad_structure(ad_type, ad)).company_id
            == adv_state_of(data).company_id,
        ad.len() < 2 ==> adv_state_of(data + ad_structure(ad_type, ad)).company_id
            == adv_state_of(data).company_id,
{
    lemma_append_structure(data, ad_type, ad);
}

/// A shortened-local-name structure whose data is valid UTF-8 sets the
/// short name to that text; one that is not, or a structure of another
/// type, leaves the short name as it was. So the short name is the text of
/// the last valid shortened-name structure, `Unknown` when there is none.
pub proof fn lemma_short_name_law(data: Seq<u8>, ad_type: u8, ad: Seq<u8>)
    requires
        ad_walk_exact(data, 0),
        ad.len() < 255,
    ensures
        ad_type == 0x08 && valid_utf8(ad) ==> adv_state_of(data + ad_structure(ad_type, ad)).short_name
            == decode_utf8(ad),
        !(ad_type == 0x08 && valid_utf8(ad)) ==> adv_state_of(
            data + ad_structure(ad_type, ad),
        ).short_name == adv_state_of(data).short_name,
{
    lemma_append_structure(data, ad_type, ad);
}

/// The same for the complete local name (type 0x09).
pub proof fn lemma_long_name_law(data: Seq<u8>, ad_type: u8, ad: Seq<u8>)
    requires
        ad_walk_exact(data, 0),
        ad.len() < 255,
    ensures
        ad_type == 0x09 && valid_utf8(ad) ==> adv_state_of(data + ad_structure(ad_type, ad)).long_name
            == decode_utf8(ad),
        !(ad_type == 0x09 && valid_utf8(ad)) ==> adv_state_of(
            data + ad_structure(ad_type, ad),
        ).long_name == adv_state_of(data).long_name,
{
    lemma_append_structure(data, ad_type, ad);
}

/// A transmit power structure sets the power level to its first byte read
/// as a signed byte; a structure of another type leaves it as it was.
pub proof fn lemma_power_level_law(data: Seq<u8>, ad_type: u8, ad: Seq<u8>)
    requires
        ad_walk_exact(data, 0),
        0 < ad.len() < 255,
    ensures
        ad_type == 0x0A ==> adv_state_of(data + ad_structure(ad_type, ad)).power_level == if ad[0]
            < 128 {
            ad[0] as int
        } else {
            ad[0] as int - 256
        },
        ad_type != 0x0A ==> adv_state_of(data + ad_structure(ad_type, ad)).power_level
            == adv_state_of(data).power_level,
{
    lemma_append_structure(data, ad_type, ad);
}

} // verus!

verus! {

/// The text of a UUID sent least significant byte first holds two
/// upper-case digits per byte, the last byte's first.
proof fn lemma_uuid128_chars(chunk: Seq<u8>)
    ensures
        uuid128_text(chunk).len() == 2 * chunk.len(),
        forall|j: int|
            0 <= j < chunk.len() ==> #[trigger] uuid128_text(chunk)[2 * j] == crate::hex_text::upper_digit(
                chunk[chunk.len() - 1 - j] as int / 16,
            ) && uuid128_text(chunk)[2 * j + 1] == crate::hex_text::upper_digit(
                chunk[chunk.len() - 1 - j] as int % 16,
            ),
    decreases chunk.len(),
{
    if chunk.len() > 0 {
        lemma_uuid128_chars(chunk.drop_last());
        let rest = chunk.drop_last();
        assert forall|j: int| 0 <= j < chunk.len() implies #[trigger] uuid128_text(chunk)[2 * j]
            == crate::hex_text::upper_digit(chunk[chunk.len() - 1 - j] as int / 16)
            && uuid128_text(chunk)[2 * j + 1] == crate::hex_text::upper_digit(
            chunk[chunk.len() - 1 - j] as int % 16,
        ) by {
            if j > 0 {
                assert(rest[rest.len() - 1 - (j - 1)] == chunk[chunk.len() - 1 - j]);
                assert(uuid128_text(chunk)[2 * j] == uuid128_text(rest)[2 * (j - 1)]);
                assert(uuid128_text(chunk)[2 * j + 1] == uuid128_text(rest)[2 * (j - 1) + 1]);
            }
        }
    }
}

/// A list of 16-bit UUIDs (type 0x02 or 0x03) appends one UUID per whole
/// pair of data bytes, in order; each is written as four upper-case
/// digits, the second byte of the pair first. A list of 128-bit UUIDs
/// (type 0x06 or 0x07) appends one per whole run of sixteen bytes, each
/// written as 32 upper-case digits, the run's last byte first. Other
/// structures leave the UUIDs as they were.
pub proof fn lemma_uuid_law(data: Seq<u8>, ad_type: u8, ad: Seq<u8>)
    requires
        ad_walk_exact(data, 0),
        ad.len() < 255,
    ensures
        ({
            let before = adv_state_of(data).uuids;
            let after = adv_state_of(data + ad_structure(ad_type, ad)).uuids;
            &&& (ad_type == 0x02 || ad_type == 0x03) ==> {
                &&& after.len() == before.len() + ad.len() / 2
                &&& forall|i: int| 0 <= i < before.len() ==> after[i] == before[i]
                &&& forall|k: int|
                    0 <= k < ad.len() / 2 ==> #[trigger] after[before.len() + k] == seq![
                        crate::hex_text::upper_digit(ad[2 * k + 1] as int / 16),
                        crate::hex_text::upper_digit(ad[2 * k + 1] as int % 16),
                        crate::hex_text::upper_digit(ad[2 * k] as int / 16),
                        crate::hex_text::upper_digit(ad[2 * k] as int % 16),
                    ]
            }
            &&& (ad_type == 0x06 || ad_type == 0x07) ==> {
                &&& after.len() == before.len() + ad.len() / 16
                &&& forall|i: int| 0 <= i < before.len() ==> after[i] == before[i]
                &&& forall|k: int|
                    0 <= k < ad.len() / 16 ==> {
                        &&& (#[trigger] after[before.len() + k]).len() == 32
                        &&& forall|i: int|
                            0 <= i < 32 ==> #[trigger] after[before.len() + k][i] == if i % 2 == 0 {
                                crate::hex_text::upper_digit(ad[16 * k + 15 - i / 2] as int / 16)
                            } else {
                                crate::hex_text::upper_digit(ad[16 * k + 15 - i / 2] as int % 16)
                            }
                    }
            }
            &&& !(ad_type == 0x02 || ad_type == 0x03 || ad_type == 0x06 || ad_type == 0x07) ==> after
                == before
        }),
{
    lemma_append_structure(data, ad_type, ad);
    let before = adv_state_of(data).uuids;
    if ad_type == 0x02 || ad_type == 0x03 {
        assert forall|k: int| 0 <= k < ad.len() / 2 implies #[trigger] uuids16_of(ad)[k] == seq![
            crate::hex_text::upper_digit(ad[2 * k + 1] as int / 16),
            crate::hex_text::upper_digit(ad[2 * k + 1] as int % 16),
            crate::hex_text::upper_digit(ad[2 * k] as int / 16),
            crate::hex_text::upper_digit(ad[2 * k] as int % 16),
        ] by {
            assert(uuids16_of(ad)[k] =~= seq![
                crate::hex_text::upper_digit(ad[2 * k + 1] as int / 16),
                crate::hex_text::upper_digit(ad[2 * k + 1] as int % 16),
                crate::hex_text::upper_digit(ad[2 * k] as int / 16),
                crate::hex_text::upper_digit(ad[2 * k] as int % 16),
            ]);
        }
    }
    if ad_type == 0x06 || ad_type == 0x07 {
        assert forall|k: int| 0 <= k < ad.len() / 16 implies {
            &&& (#[trigger] uuids128_of(ad)[k]).len() == 32
            &&& forall|i: int|
                0 <= i < 32 ==> #[trigger] uuids128_of(ad)[k][i] == if i % 2 == 0 {
                    crate::hex_text::upper_digit(ad[16 * k + 15 - i / 2] as int / 16)
                } else {
                    crate::hex_text::upper_digit(ad[16 * k + 15 - i / 2] as int % 16)
                }
        } by {
            let chunk = ad.subrange(16 * k, 16 * k + 16);
            lemma_uuid128_chars(chunk);
            assert forall|i: int| 0 <= i < 32 implies #[trigger] uuids128_of(ad)[k][i] == if i % 2
                == 0 {
                crate::hex_text::upper_digit(ad[16 * k + 15 - i / 2] as int / 16)
            } else {
                crate::hex_text::upper_digit(ad[16 * k + 15 - i / 2] as int % 16)
            } by {
                let j = i / 2;
                assert(chunk[chunk.len() - 1 - j] == ad[16 * k + 15 - j]);
                if i % 2 == 0 {
                    assert(i == 2 * j);
                    assert(uuid128_text(chunk)[2 * j] == crate::hex_text::upper_digit(
                        chunk[chunk.len() - 1 - j] as int / 16,
                    ));
                } else {
                    assert(i == 2 * j + 1);
                    assert(uuid128_text(chunk)[2 * j] == crate::hex_text::upper_digit(
                        chunk[chunk.len() - 1 - j] as int / 16,
                    ));
                    assert(uuid128_text(chunk)[2 * j + 1] == crate::hex_text::upper_digit(
                        chunk[chunk.len() - 1 - j] as int % 16,
                    ));
                }
            }
        }
    }
}

} // verus!
