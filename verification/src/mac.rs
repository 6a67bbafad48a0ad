//! Hardware (MAC) addresses parsed from colon-separated hexadecimal text.

use vstd::prelude::*;
use crate::addr::{COLON, is_hex_digit, hex_val};

verus! {

/// A 6-byte hardware address, one field per byte in transmission order.
#[derive(Clone, Copy, Debug, PartialEq, Eq, Structural)]
pub struct MacAddress {
    pub b0: u8,
    pub b1: u8,
    pub b2: u8,
    pub b3: u8,
    pub b4: u8,
    pub b5: u8,
}

impl View for MacAddress {
    type V = Seq<u8>;

    open spec fn view(&self) -> Seq<u8> {
        seq![self.b0, self.b1, self.b2, self.b3, self.b4, self.b5]
    }
}

impl MacAddress {
    /// The byte at position `i`, counting from the left of the address text.
    pub fn byte_at(&self, i: usize) -> (b: u8)
        requires
            i < 6,
        ensures
            b == self@[i as int],
    {
        match i {
            0 => self.b0,
            1 => self.b1,
            2 => self.b2,
            3 => self.b3,
            4 => self.b4,
            _ => self.b5,
        }
    }
}

/// Whether positions `i` and `i + 1` of `s` hold a two-digit hexadecimal pair.
pub open spec fn spec_hex_pair_ok(s: Seq<u8>, i: int) -> bool
    recommends
        0 <= i && i + 1 < s.len(),
{
    is_hex_digit(s[i]) && is_hex_digit(s[i + 1])
}

/// The byte value of the hexadecimal pair at positions `i` and `i + 1`.
pub open spec fn spec_hex_pair_val(s: Seq<u8>, i: int) -> u8
    recommends
        0 <= i && i + 1 < s.len(),
        spec_hex_pair_ok(s, i),
{
    (16 * hex_val(s[i]) + hex_val(s[i + 1])) as u8
}

/// MAC text as an address: six two-digit hexadecimal pairs joined by colons.
pub open spec fn spec_parse_mac(s: Seq<u8>) -> Option<MacAddress> {
    if s.len() == 17 && s[2] == COLON && s[5] == COLON && s[8] == COLON && s[11] == COLON && s[14]
        == COLON && spec_hex_pair_ok(s, 0) && spec_hex_pair_ok(s, 3) && spec_hex_pair_ok(s, 6)
        && spec_hex_pair_ok(s, 9) && spec_hex_pair_ok(s, 12) && spec_hex_pair_ok(s, 15) {
        Some(
            MacAddress {
                b0: spec_hex_pair_val(s, 0),
                b1: spec_hex_pair_val(s, 3),
                b2: spec_hex_pair_val(s, 6),
                b3: spec_hex_pair_val(s, 9),
                b4: spec_hex_pair_val(s, 12),
                b5: spec_hex_pair_val(s, 15),
            },
        )
    } else {
        None
    }
}

/// Whether `c` is a hexadecimal digit of either case.
fn mac_is_hex(c: u8) -> (r: bool)
    ensures
        r == is_hex_digit(c),
{
    (0x30 <= c && c <= 0x39) || (0x61 <= c && c <= 0x66) || (0x41 <= c && c <= 0x46)
}

/// The value of the hexadecimal digit `c`, as a byte.
fn mac_hex_value(c: u8) -> (r: u8)
    requires
        is_hex_digit(c),
    ensures
        r == hex_val(c),
{
    if c <= 0x39 {
        c - 0x30
    } else if c >= 0x61 {
        c - 0x61 + 10
    } else {
        c - 0x41 + 10
    }
}

/// The byte value of the hexadecimal pair at positions `i` and `i + 1`.
fn hex_pair(s: &Vec<u8>, i: usize) -> (b: u8)
    requires
        i + 1 < s.len(),
        spec_hex_pair_ok(s@, i as int),
    ensures
        b == spec_hex_pair_val(s@, i as int),
{
    16 * mac_hex_value(s[i]) + mac_hex_value(s[i + 1])
}

/// Parse colon-separated hexadecimal MAC text.
pub fn parse_mac(s: &Vec<u8>) -> (r: Option<MacAddress>)
    ensures
        r == spec_parse_mac(s@),
{
    if s.len() != 17 {
        return None;
    }
    if !(s[2] == COLON && s[5] == COLON && s[8] == COLON && s[11] == COLON && s[14] == COLON) {
        return None;
    }
    if !(mac_is_hex(s[0]) && mac_is_hex(s[1]) && mac_is_hex(s[3]) && mac_is_hex(s[4]) && mac_is_hex(
        s[6],
    ) && mac_is_hex(s[7]) && mac_is_hex(s[9]) && mac_is_hex(s[10]) && mac_is_hex(s[12])
        && mac_is_hex(s[13]) && mac_is_hex(s[15]) && mac_is_hex(s[16])) {
        return None;
    }
    Some(
        MacAddress {
            b0: hex_pair(s, 0),
            b1: hex_pair(s, 3),
            b2: hex_pair(s, 6),
            b3: hex_pair(s, 9),
            b4: hex_pair(s, 12),
            b5: hex_pair(s, 15),
        },
    )
}

} // verus!
