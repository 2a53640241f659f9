//! The table of organisationally unique identifiers (OUIs): the company
//! that owns each 24-bit prefix of a device address, read from the lines
//! of the IEEE OUI listing.

use vstd::prelude::*;
use std::collections::HashMap;
use crate::advertising::{unknown_text, unknown_string};
use crate::hex_text::upper_pair;
use crate::text::{
    append_chars, chars_of, char_lists, contains_chars, contains_text, join_char_lists, join_with, split_words,
    string_from_chars, words,
};

verus! {

broadcast use vstd::std_specs::hash::group_hash_axioms;

/// The marker `(hex)` of the listing lines that give a prefix.
pub open spec fn hex_marker() -> Seq<char> {
    seq!['(', 'h', 'e', 'x', ')']
}

/// `w` with every `-` turned into `:` (`str::replace("-", ":")`).
pub open spec fn dash_to_colon(w: Seq<char>) -> Seq<char> {
    Seq::new(w.len(), |i: int| if w[i] == '-' { ':' } else { w[i] })
}

/// The prefix text and company name that a line of the listing gives:
/// a line holding `(hex)` with more than two words, such as
/// `00-00-0A   (hex)    CISCO SYSTEMS, INC.`, gives its first word with
/// dashes turned into colons and its words from the third on, joined by
/// single spaces.
pub open spec fn oui_line_entry(line: Seq<char>) -> Option<(Seq<char>, Seq<char>)> {
    let ws = words(line);
    if contains_text(line, hex_marker()) && ws.len() > 2 {
        Some((dash_to_colon(ws[0]), join_with(ws.subrange(2, ws.len() as int), seq![' '])))
    } else {
        None
    }
}

/// Whether `c` is a digit of upper-case hexadecimal.
pub open spec fn is_upper_hex(c: char) -> bool {
    ('0' <= c && c <= '9') || ('A' <= c && c <= 'F')
}

/// The value of an upper-case hexadecimal digit.
pub open spec fn upper_hex_value(c: char) -> int {
    if '0' <= c && c <= '9' {
        c as int - '0' as int
    } else {
        c as int - 'A' as int + 10
    }
}

/// The 24-bit prefix that a text of the form `HH:HH:HH` (upper-case
/// hexadecimal) stands for; `None` for any other text, which no address
/// prefix is ever written as.
pub open spec fn oui_key_of_text(k: Seq<char>) -> Option<u32> {
    if k.len() == 8 && k[2] == ':' && k[5] == ':' && is_upper_hex(k[0]) && is_upper_hex(k[1])
        && is_upper_hex(k[3]) && is_upper_hex(k[4]) && is_upper_hex(k[6]) && is_upper_hex(k[7]) {
        Some(
            (upper_hex_value(k[0]) * 0x100000 + upper_hex_value(k[1]) * 0x10000 + upper_hex_value(k[3])
                * 0x1000 + upper_hex_value(k[4]) * 0x100 + upper_hex_value(k[6]) * 0x10
                + upper_hex_value(k[7])) as u32,
        )
    } else {
        None
    }
}

/// The text of a 24-bit prefix: its three bytes in upper-case hexadecimal,
/// separated by colons (`{:02X}:{:02X}:{:02X}`).
pub open spec fn oui_prefix_text(p: u32) -> Seq<char> {
    upper_pair((p / 0x10000) as u8) + seq![':'] + upper_pair(((p / 0x100) % 0x100) as u8) + seq![':']
        + upper_pair((p % 0x100) as u8)
}

/// The company name that `table` holds for `key`, or `Unknown`.
pub open spec fn oui_name(table: Map<u32, Seq<char>>, key: u32) -> Seq<char> {
    if table.contains_key(key) {
        table[key]
    } else {
        unknown_text()
    }
}

/// The three bytes of an address that its OUI is made of: bits 40 to 47,
/// 32 to 39 and 24 to 31.
pub open spec fn oui_bytes_of_address(mac: i64) -> (u8, u8, u8) {
    (((mac >> 40u64) & 0xFF) as u8, ((mac >> 32u64) & 0xFF) as u8, ((mac >> 24u64) & 0xFF) as u8)
}

/// The 24-bit OUI of an address.
pub open spec fn oui_key_of_address(mac: i64) -> u32 {
    let (b0, b1, b2) = oui_bytes_of_address(mac);
    (b0 as int * 0x10000 + b1 as int * 0x100 + b2 as int) as u32
}

/// Company names by 24-bit OUI.
pub struct OuiTable {
    entries: HashMap<u32, String>,
}

impl View for OuiTable {
    type V = Map<u32, Seq<char>>;

    closed spec fn view(&self) -> Map<u32, Seq<char>> {
        self.entries@.map_values(|s: String| s@)
    }
}

impl OuiTable {
    /// An empty table.
    pub fn new() -> (res: OuiTable)
        ensures
            res@ == Map::<u32, Seq<char>>::empty(),
    {
        let res = OuiTable { entries: HashMap::new() };
        assert(res@ =~= Map::<u32, Seq<char>>::empty());
        res
    }

    /// Records the entry of one line of the OUI listing, if it gives one
    /// for a prefix of the form `HH:HH:HH`; a later line for the same
    /// prefix replaces an earlier one.
    pub fn insert_line(&mut self, line: &str)
        ensures
            final(self)@ == match oui_line_entry(line@) {
                Some((k, name)) => match oui_key_of_text(k) {
                    Some(p) => old(self)@.insert(p, name),
                    None => old(self)@,
                },
                None => old(self)@,
            },
    {
        let cs = chars_of(line);
        let marker: Vec<char> = vec!['(', 'h', 'e', 'x', ')'];
        assert(marker@ =~= hex_marker());
        if !contains_chars(&cs, &marker) {
            return;
        }
        let ws = split_words(&cs);
        if ws.len() <= 2 {
            return;
        }
        let ghost wv = char_lists(ws@);
        let key = dashes_to_colons(&ws[0]);
        assert(key@ == dash_to_colon(wv[0]));
        match oui_key_from_chars(&key) {
            Some(p) => {
                let mut rest: Vec<Vec<char>> = Vec::new();
                let mut i: usize = 2;
                let n = ws.len();
                while i < n
                    invariant
                        2 <= i <= n == ws.len(),
                        wv == char_lists(ws@),
                        char_lists(rest@) == wv.subrange(2, i as int),
                    decreases n - i,
                {
                    let mut word: Vec<char> = Vec::new();
                    append_chars(&mut word, &ws[i]);
                    assert(word@ == wv[i as int]);
                    let ghost before = char_lists(rest@);
                    rest.push(word);
                    assert(char_lists(rest@) =~= before.push(wv[i as int]));
                    i = i + 1;
                    assert(char_lists(rest@) =~= wv.subrange(2, i as int));
                }
                let space: Vec<char> = vec![' '];
                let name = string_from_chars(&join_char_lists(&rest, &space));
                assert(space@ =~= seq![' ']);
                let ghost before = self.entries@;
                self.entries.insert(p, name);
                assert(self@ =~= old(self)@.insert(p, name@));
            },
            None => {},
        }
    }

    /// The table of the entries of the given listing lines, in order.
    pub fn from_lines(lines: &Vec<String>) -> (res: OuiTable)
        ensures
            res@ == oui_table_of(lines@.map_values(|s: String| s@)),
    {
        let mut table = OuiTable::new();
        let n = lines.len();
        let ghost ls = lines@.map_values(|s: String| s@);
        for i in 0..n
            invariant
                n == lines.len(),
                ls == lines@.map_values(|s: String| s@),
                table@ == oui_table_of(ls.take(i as int)),
        {
            table.insert_line(lines[i].as_str());
            assert(ls.take(i + 1).drop_last() =~= ls.take(i as int));
        }
        assert(ls.take(n as int) =~= ls);
        table
    }
}

/// The table of the entries of the given lines, in order.
pub open spec fn oui_table_of(lines: Seq<Seq<char>>) -> Map<u32, Seq<char>>
    decreases lines.len(),
{
    if lines.len() == 0 {
        Map::empty()
    } else {
        let before = oui_table_of(lines.drop_last());
        match oui_line_entry(lines.last()) {
            Some((k, name)) => match oui_key_of_text(k) {
                Some(p) => before.insert(p, name),
                None => before,
            },
            None => before,
        }
    }
}

/// `w` with every `-` turned into `:`.
fn dashes_to_colons(w: &Vec<char>) -> (res: Vec<char>)
    ensures
        res@ == dash_to_colon(w@),
{
    let mut res: Vec<char> = Vec::new();
    let n = w.len();
    for i in 0..n
        invariant
            n == w.len(),
            res@ == dash_to_colon(w@.take(i as int)),
    {
        res.push(if w[i] == '-' { ':' } else { w[i] });
        assert(res@ =~= dash_to_colon(w@.take(i + 1)));
    }
    assert(w@.take(n as int) =~= w@);
    res
}

/// The value of an upper-case hexadecimal digit, if `c` is one.
fn upper_hex_of(c: char) -> (res: Option<u32>)
    ensures
        match res {
            Some(v) => is_upper_hex(c) && v == upper_hex_value(c),
            None => !is_upper_hex(c),
        },
{
    if '0' <= c && c <= '9' {
        Some(c as u32 - 48)
    } else if 'A' <= c && c <= 'F' {
        Some(c as u32 - 55)
    } else {
        None
    }
}

/// The 24-bit prefix that the text `k` stands for.
fn oui_key_from_chars(k: &Vec<char>) -> (res: Option<u32>)
    ensures
        res == oui_key_of_text(k@),
{
    if k.len() != 8 || k[2] != ':' || k[5] != ':' {
        return None;
    }
    match (
        upper_hex_of(k[0]),
        upper_hex_of(k[1]),
        upper_hex_of(k[3]),
        upper_hex_of(k[4]),
        upper_hex_of(k[6]),
        upper_hex_of(k[7]),
    ) {
        (Some(a), Some(b), Some(c), Some(d), Some(e), Some(f)) => Some(
            a * 0x100000 + b * 0x10000 + c * 0x1000 + d * 0x100 + e * 0x10 + f,
        ),
        _ => None,
    }
}

/// Looks up the company that owns the OUI of an advertising address: the
/// name that the table holds for the prefix made of bits 24 to 47 of the
/// address, or `Unknown`.
pub fn lookup_oui(mac_address: i64, table: &OuiTable) -> (res: String)
    ensures
        res@ == oui_name(table@, oui_key_of_address(mac_address)),
{
    let b0 = (mac_address >> 40u64) & 0xFF;
    let b1 = (mac_address >> 32u64) & 0xFF;
    let b2 = (mac_address >> 24u64) & 0xFF;
    assert(0 <= (mac_address >> 40u64) & 0xFF <= 0xFF) by (bit_vector);
    assert(0 <= (mac_address >> 32u64) & 0xFF <= 0xFF) by (bit_vector);
    assert(0 <= (mac_address >> 24u64) & 0xFF <= 0xFF) by (bit_vector);
    let key: u32 = (b0 as u32) * 0x10000 + (b1 as u32) * 0x100 + (b2 as u32);
    match table.entries.get(&key) {
        Some(name) => name.clone(),
        None => unknown_string(),
    }
}

} // verus!

verus! {

/// An upper-case hexadecimal digit is the digit of its value.
proof fn lemma_upper_digit_of_value(c: char)
    requires
        is_upper_hex(c),
    ensures
        0 <= upper_hex_value(c) < 16,
        crate::hex_text::upper_digit(upper_hex_value(c)) == c,
{
}

/// The digit of a value below sixteen is an upper-case hexadecimal digit of
/// that value.
proof fn lemma_value_of_upper_digit(n: int)
    requires
        0 <= n < 16,
    ensures
        is_upper_hex(crate::hex_text::upper_digit(n)),
        upper_hex_value(crate::hex_text::upper_digit(n)) == n,
{
}

/// The bytes of a 24-bit value made of three bytes.
proof fn lemma_three_bytes(a: int, b: int, c: int)
    requires
        0 <= a < 256,
        0 <= b < 256,
        0 <= c < 256,
    ensures
        (a * 0x10000 + b * 0x100 + c) / 0x10000 == a,
        ((a * 0x10000 + b * 0x100 + c) / 0x100) % 0x100 == b,
        (a * 0x10000 + b * 0x100 + c) % 0x100 == c,
        a * 0x10000 + b * 0x100 + c < 0x1000000,
{
    assert((a * 0x10000 + b * 0x100 + c) / 0x100 == a * 0x100 + b) by (nonlinear_arith)
        requires
            0 <= b < 256,
            0 <= c < 256,
    ;
}

/// A value below 2^24 is made of its three bytes.
proof fn lemma_bytes_of_value(p: int)
    requires
        0 <= p < 0x1000000,
    ensures
        p == (p / 0x10000) * 0x10000 + ((p / 0x100) % 0x100) * 0x100 + p % 0x100,
        0 <= p / 0x10000 < 256,
        0 <= (p / 0x100) % 0x100 < 256,
        0 <= p % 0x100 < 256,
{
}

/// A text read as a prefix is the text of that prefix.
proof fn lemma_key_text_written(k: Seq<char>, p: u32)
    requires
        oui_key_of_text(k) == Some(p),
    ensures
        p < 0x1000000,
        k == oui_prefix_text(p),
{
    lemma_upper_digit_of_value(k[0]);
    lemma_upper_digit_of_value(k[1]);
    lemma_upper_digit_of_value(k[3]);
    lemma_upper_digit_of_value(k[4]);
    lemma_upper_digit_of_value(k[6]);
    lemma_upper_digit_of_value(k[7]);
    let a = upper_hex_value(k[0]) * 16 + upper_hex_value(k[1]);
    let b = upper_hex_value(k[3]) * 16 + upper_hex_value(k[4]);
    let c = upper_hex_value(k[6]) * 16 + upper_hex_value(k[7]);
    lemma_three_bytes(a, b, c);
    assert(p as int == a * 0x10000 + b * 0x100 + c);
    assert(k =~= oui_prefix_text(p));
}

/// The text of a prefix is read as that prefix.
proof fn lemma_written_text_key(p: u32)
    requires
        p < 0x1000000,
    ensures
        oui_key_of_text(oui_prefix_text(p)) == Some(p),
{
    let a = p as int / 0x10000;
    let b = (p as int / 0x100) % 0x100;
    let c = p as int % 0x100;
    lemma_bytes_of_value(p as int);
    lemma_value_of_upper_digit(a / 16);
    lemma_value_of_upper_digit(a % 16);
    lemma_value_of_upper_digit(b / 16);
    lemma_value_of_upper_digit(b % 16);
    lemma_value_of_upper_digit(c / 16);
    lemma_value_of_upper_digit(c % 16);
    let k = oui_prefix_text(p);
    assert(k[0] == crate::hex_text::upper_digit(a / 16));
    assert(k[1] == crate::hex_text::upper_digit(a % 16));
    assert(k[3] == crate::hex_text::upper_digit(b / 16));
    assert(k[4] == crate::hex_text::upper_digit(b % 16));
    assert(k[6] == crate::hex_text::upper_digit(c / 16));
    assert(k[7] == crate::hex_text::upper_digit(c % 16));
}

/// The table's integer keys stand exactly for the prefix texts: a text is
/// read as the prefix `p` if and only if it is the text that `p` is
/// written as.
pub proof fn lemma_oui_key_text(k: Seq<char>, p: u32)
    ensures
        oui_key_of_text(k) == Some(p) <==> (p < 0x1000000 && k == oui_prefix_text(p)),
{
    if oui_key_of_text(k) == Some(p) {
        lemma_key_text_written(k, p);
    }
    if p < 0x1000000 && k == oui_prefix_text(p) {
        lemma_written_text_key(p);
    }
}

/// The OUI key of an address is written as the text that the address's
/// bits 40 to 47, 32 to 39 and 24 to 31 give in `{:02X}:{:02X}:{:02X}`,
/// the text under which the listing names the company.
pub proof fn lemma_address_prefix_text(mac: i64)
    ensures
        oui_key_of_address(mac) < 0x1000000,
        oui_prefix_text(oui_key_of_address(mac)) == ({
            let (b0, b1, b2) = oui_bytes_of_address(mac);
            upper_pair(b0) + seq![':'] + upper_pair(b1) + seq![':'] + upper_pair(b2)
        }),
{
    assert(0 <= (mac >> 40u64) & 0xFF <= 0xFF) by (bit_vector);
    assert(0 <= (mac >> 32u64) & 0xFF <= 0xFF) by (bit_vector);
    assert(0 <= (mac >> 24u64) & 0xFF <= 0xFF) by (bit_vector);
    let (b0, b1, b2) = oui_bytes_of_address(mac);
    lemma_three_bytes(b0 as int, b1 as int, b2 as int);
}

} // verus!

verus! {

/// The listing read as the lines give it, keyed by prefix text: each line
/// that gives an entry sets its text to its company, later lines winning.
pub open spec fn text_listing(lines: Seq<Seq<char>>) -> Map<Seq<char>, Seq<char>>
    decreases lines.len(),
{
    if lines.len() == 0 {
        Map::empty()
    } else {
        let before = text_listing(lines.drop_last());
        match oui_line_entry(lines.last()) {
            Some((k, name)) => before.insert(k, name),
            None => before,
        }
    }
}

/// The text under which an address's OUI is looked up:
/// `{:02X}:{:02X}:{:02X}` of its bits 40 to 47, 32 to 39 and 24 to 31.
pub open spec fn address_prefix_text(mac: i64) -> Seq<char> {
    let (b0, b1, b2) = oui_bytes_of_address(mac);
    upper_pair(b0) + seq![':'] + upper_pair(b1) + seq![':'] + upper_pair(b2)
}

/// Looking an address up in the table built from listing lines gives what
/// looking its prefix text up in the listing keyed by text gives: the
/// company of the last line for that prefix, or `Unknown`.
pub proof fn lemma_lookup_matches_listing(lines: Seq<Seq<char>>, mac: i64)
    ensures
        oui_name(oui_table_of(lines), oui_key_of_address(mac)) == (if text_listing(lines).contains_key(
            address_prefix_text(mac),
        ) {
            text_listing(lines)[address_prefix_text(mac)]
        } else {
            unknown_text()
        }),
    decreases lines.len(),
{
    lemma_address_prefix_text(mac);
    let key = oui_key_of_address(mac);
    let t = address_prefix_text(mac);
    if lines.len() > 0 {
        lemma_lookup_matches_listing(lines.drop_last(), mac);
        match oui_line_entry(lines.last()) {
            Some((k, name)) => {
                lemma_oui_key_text(k, key);
                match oui_key_of_text(k) {
                    Some(p) => {
                        lemma_oui_key_text(k, p);
                    },
                    None => {},
                }
            },
            None => {},
        }
    }
}

} // verus!
