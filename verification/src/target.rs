//! The target to probe: a literal address, or a name to resolve first.

use vstd::prelude::*;
use crate::addr::{IpAddress, spec_parse_ip, spec_format_ip, parse_ip, format_ip};

verus! {

/// The target to probe.
#[derive(Debug, Clone)]
pub enum Target {
    /// A DNS name, kept as the user wrote it, to resolve before probing.
    Dns(Vec<u8>),
    /// A literal IP address to probe directly.
    Addr(IpAddress),
}

/// Copy a byte string.
pub fn clone_bytes(v: &Vec<u8>) -> (r: Vec<u8>)
    ensures
        r@ == v@,
{
    let mut out: Vec<u8> = Vec::new();
    let mut i: usize = 0;
    while i < v.len()
        invariant
            i <= v.len(),
            out@ == v@.take(i as int),
        decreases v.len() - i,
    {
        out.push(v[i]);
        proof {
            assert(v@.take(i + 1) =~= v@.take(i as int).push(v@[i as int]));
        }
        i = i + 1;
    }
    proof {
        assert(v@.take(v@.len() as int) =~= v@);
    }
    out
}

impl Target {
    /// Read a target from user text: a syntactically valid IP literal is a
    /// literal address, and anything else is taken as a DNS name. Total.
    pub fn parse(text: Vec<u8>) -> (t: Target)
        ensures
            match spec_parse_ip(text@) {
                Some(a) => t == Target::Addr(a),
                None => t matches Target::Dns(h) && h@ == text@,
            },
    {
        match parse_ip(&text) {
            Some(a) => Target::Addr(a),
            None => Target::Dns(text),
        }
    }

    /// The target's text: the name as written, or the address formatted.
    pub fn text(&self) -> (r: Vec<u8>)
        ensures
            match self {
                Target::Dns(h) => r@ == h@,
                Target::Addr(a) => r@ == spec_format_ip(*a),
            },
    {
        match self {
            Target::Dns(h) => clone_bytes(h),
            Target::Addr(a) => format_ip(a),
        }
    }
}

} // verus!
