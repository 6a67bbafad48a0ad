//! Wire-exact construction of the two datagrams the crate sends.
//!
//! An echo probe is a fixed 56-byte ICMP echo request whose checksum and
//! identifier are left zero for the network stack to fill in; a wake datagram
//! is the 102-byte magic packet for a hardware address.

use vstd::prelude::*;
use crate::mac::MacAddress;

verus! {

/// Length of an echo request, and of the only acceptable reply.
pub const ECHO_PACKET_LEN: usize = 56;

/// Length of a magic packet.
pub const MAGIC_PACKET_LEN: usize = 102;

/// The ICMP echo-request type byte for the address family.
pub open spec fn spec_echo_request_type(v6: bool) -> u8 {
    if v6 {
        128
    } else {
        8
    }
}

/// The ICMP echo-reply type byte that signals success for the address family.
pub open spec fn spec_echo_reply_type(v6: bool) -> u8 {
    if v6 {
        129
    } else {
        0
    }
}

/// Byte `j` of the repeating 12-byte payload signature.
pub open spec fn spec_sig_byte(j: int) -> u8
    recommends
        0 <= j < 12,
{
    if j == 0 {
        0x74
    } else if j == 1 {
        0x75
    } else if j == 2 {
        0x72
    } else if j == 3 {
        0x6e
    } else if j == 4 {
        0x6f
    } else if j == 5 {
        0x6e
    } else if j == 6 {
        0x2d
    } else if j == 7 {
        0x70
    } else if j == 8 {
        0x69
    } else if j == 9 {
        0x6e
    } else if j == 10 {
        0x67
    } else {
        0x0a
    }
}

/// Byte `j` of the repeating payload signature.
fn sig_byte(j: usize) -> (b: u8)
    requires
        j < 12,
    ensures
        b == spec_sig_byte(j as int),
{
    match j {
        0 => 0x74,
        1 => 0x75,
        2 => 0x72,
        3 => 0x6e,
        4 => 0x6f,
        5 => 0x6e,
        6 => 0x2d,
        7 => 0x70,
        8 => 0x69,
        9 => 0x6e,
        10 => 0x67,
        _ => 0x0a,
    }
}

/// Build the fixed 56-byte echo request for the address family: the request
/// type, a zero code, zero checksum, identifier and sequence fields, and 48
/// bytes of the repeating signature.
pub fn echo_request(v6: bool) -> (r: Vec<u8>)
    ensures
        r@.len() == 56,
        r@[0] == spec_echo_request_type(v6),
        forall|i: int| 1 <= i < 8 ==> r@[i] == 0,
        forall|i: int| 0 <= i < 48 ==> #[trigger] r@[8 + i] == spec_sig_byte(i % 12),
{
    let mut out: Vec<u8> = Vec::new();
    if v6 {
        out.push(128);
    } else {
        out.push(8);
    }
    let mut z: usize = 0;
    while z < 7
        invariant
            z <= 7,
            out@.len() == 1 + z,
            out@[0] == spec_echo_request_type(v6),
            forall|i: int| 1 <= i < 1 + z ==> out@[i] == 0,
        decreases 7 - z,
    {
        out.push(0);
        z = z + 1;
    }
    let mut k: usize = 0;
    while k < 48
        invariant
            k <= 48,
            out@.len() == 8 + k,
            out@[0] == spec_echo_request_type(v6),
            forall|i: int| 1 <= i < 8 ==> out@[i] == 0,
            forall|i: int| 0 <= i < k ==> #[trigger] out@[8 + i] == spec_sig_byte(i % 12),
        decreases 48 - k,
    {
        out.push(sig_byte(k % 12));
        k = k + 1;
    }
    out
}

/// Build the 102-byte magic packet: six `0xff` synchronization bytes, then
/// the hardware address repeated sixteen times.
pub fn magic_packet(mac: &MacAddress) -> (r: Vec<u8>)
    ensures
        r@.len() == 102,
        forall|i: int| 0 <= i < 6 ==> r@[i] == 0xff,
        forall|i: int| 0 <= i < 96 ==> #[trigger] r@[6 + i] == mac@[i % 6],
{
    let mut out: Vec<u8> = Vec::new();
    let mut z: usize = 0;
    while z < 6
        invariant
            z <= 6,
            out@.len() == z,
            forall|i: int| 0 <= i < z ==> out@[i] == 0xff,
        decreases 6 - z,
    {
        out.push(0xff);
        z = z + 1;
    }
    let mut k: usize = 0;
    while k < 96
        invariant
            k <= 96,
            out@.len() == 6 + k,
            forall|i: int| 0 <= i < 6 ==> out@[i] == 0xff,
            forall|i: int| 0 <= i < k ==> #[trigger] out@[6 + i] == mac@[i % 6],
        decreases 96 - k,
    {
        out.push(mac.byte_at(k % 6));
        k = k + 1;
    }
    out
}

} // verus!
