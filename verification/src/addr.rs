//! IP addresses as plain values, with verified text parsing and formatting.
//!
//! An IPv4 address is four octets; an IPv6 address is eight 16-bit groups.
//! The text grammar follows the usual literal forms: dotted decimal without
//! leading zeroes for IPv4, and colon-separated hexadecimal groups for IPv6,
//! with at most one `::` standing for one or more zero groups and an
//! optional embedded dotted-decimal tail standing for the last two groups.

use vstd::prelude::*;

verus! {

/// ASCII code of `.`
pub const DOT: u8 = 0x2e;
/// ASCII code of `:`
pub const COLON: u8 = 0x3a;

/// An IPv4 address, one field per octet in network order.
#[derive(Clone, Copy, Debug, PartialEq, Eq, Structural)]
pub struct Ipv4Address {
    pub o0: u8,
    pub o1: u8,
    pub o2: u8,
    pub o3: u8,
}

impl View for Ipv4Address {
    type V = Seq<u8>;

    open spec fn view(&self) -> Seq<u8> {
        seq![self.o0, self.o1, self.o2, self.o3]
    }
}

/// An IPv6 address, one field per 16-bit group in network order.
#[derive(Clone, Copy, Debug, PartialEq, Eq, Structural)]
pub struct Ipv6Address {
    pub g0: u16,
    pub g1: u16,
    pub g2: u16,
    pub g3: u16,
    pub g4: u16,
    pub g5: u16,
    pub g6: u16,
    pub g7: u16,
}

impl View for Ipv6Address {
    type V = Seq<u16>;

    open spec fn view(&self) -> Seq<u16> {
        seq![self.g0, self.g1, self.g2, self.g3, self.g4, self.g5, self.g6, self.g7]
    }
}

impl Ipv6Address {
    /// The group at position `i`, counting from the left of the address text.
    pub fn group_at(&self, i: usize) -> (g: u16)
        requires
            i < 8,
        ensures
            g == self@[i as int],
    {
        match i {
            0 => self.g0,
            1 => self.g1,
            2 => self.g2,
            3 => self.g3,
            4 => self.g4,
            5 => self.g5,
            6 => self.g6,
            _ => self.g7,
        }
    }
}

/// An IP address of either version.
#[derive(Clone, Copy, Debug, PartialEq, Eq, Structural)]
pub enum IpAddress {
    V4(Ipv4Address),
    V6(Ipv6Address),
}

impl IpAddress {
    /// Whether this is an IPv6 address.
    pub fn is_v6(&self) -> (r: bool)
        ensures
            r == (self matches IpAddress::V6(_)),
    {
        match self {
            IpAddress::V4(_) => false,
            IpAddress::V6(_) => true,
        }
    }
}

/// Whether `c` is an ASCII decimal digit.
pub open spec fn is_dec_digit(c: u8) -> bool {
    0x30 <= c <= 0x39
}

/// The value of the decimal digit `c`.
pub open spec fn dec_val(c: u8) -> u8
    recommends
        is_dec_digit(c),
{
    (c - 0x30) as u8
}

/// The ASCII decimal digit with value `d`.
pub open spec fn dec_digit_of(d: u8) -> u8
    recommends
        d < 10,
{
    (0x30 + d) as u8
}

/// Whether `c` is an ASCII hexadecimal digit, either case.
pub open spec fn is_hex_digit(c: u8) -> bool {
    (0x30 <= c <= 0x39) || (0x61 <= c <= 0x66) || (0x41 <= c <= 0x46)
}

/// The value of the hexadecimal digit `c`.
pub open spec fn hex_val(c: u8) -> u16
    recommends
        is_hex_digit(c),
{
    if 0x30 <= c <= 0x39 {
        (c - 0x30) as u16
    } else if 0x61 <= c <= 0x66 {
        (c - 0x61 + 10) as u16
    } else {
        (c - 0x41 + 10) as u16
    }
}

/// The lower-case ASCII hexadecimal digit with value `d`.
pub open spec fn hex_digit_of(d: u16) -> u8
    recommends
        d < 16,
{
    if d < 10 {
        (0x30 + d) as u8
    } else {
        (0x57 + d) as u8
    }
}

/// Decimal text of an octet: one to three digits, no leading zero.
pub open spec fn spec_format_dec(n: u8) -> Seq<u8> {
    if n < 10 {
        seq![dec_digit_of(n)]
    } else if n < 100 {
        seq![dec_digit_of(n / 10), dec_digit_of(n % 10)]
    } else {
        seq![dec_digit_of(n / 100), dec_digit_of((n / 10) % 10), dec_digit_of(n % 10)]
    }
}

/// Lower-case hexadecimal text of a group: one to four digits, no leading zero.
pub open spec fn spec_format_hex(g: u16) -> Seq<u8> {
    if g < 0x10 {
        seq![hex_digit_of(g)]
    } else if g < 0x100 {
        seq![hex_digit_of(g / 16), hex_digit_of(g % 16)]
    } else if g < 0x1000 {
        seq![hex_digit_of(g / 256), hex_digit_of((g / 16) % 16), hex_digit_of(g % 16)]
    } else {
        seq![
            hex_digit_of(g / 4096),
            hex_digit_of((g / 256) % 16),
            hex_digit_of((g / 16) % 16),
            hex_digit_of(g % 16),
        ]
    }
}

/// Dotted-decimal text of an IPv4 address.
pub open spec fn spec_format_v4(a: Ipv4Address) -> Seq<u8> {
    spec_format_dec(a.o0) + seq![DOT] + spec_format_dec(a.o1) + seq![DOT] + spec_format_dec(
        a.o2,
    ) + seq![DOT] + spec_format_dec(a.o3)
}

/// The groups joined with `:` separators, each in hexadecimal.
pub open spec fn spec_join_hex(groups: Seq<u16>) -> Seq<u8>
    decreases groups.len(),
{
    if groups.len() == 0 {
        Seq::empty()
    } else if groups.len() == 1 {
        spec_format_hex(groups[0])
    } else {
        spec_format_hex(groups[0]) + seq![COLON] + spec_join_hex(groups.drop_first())
    }
}

/// Full-form IPv6 text: all eight groups, no `::` compression.
pub open spec fn spec_format_v6(a: Ipv6Address) -> Seq<u8> {
    spec_join_hex(a@)
}

/// The text of an address of either version.
pub open spec fn spec_format_ip(a: IpAddress) -> Seq<u8> {
    match a {
        IpAddress::V4(x) => spec_format_v4(x),
        IpAddress::V6(x) => spec_format_v6(x),
    }
}

/// Append the decimal text of `n` to `out`.
fn push_dec(out: &mut Vec<u8>, n: u8)
    ensures
        final(out)@ == old(out)@ + spec_format_dec(n),
{
    if n < 10 {
        out.push(0x30 + n);
    } else if n < 100 {
        out.push(0x30 + n / 10);
        out.push(0x30 + n % 10);
    } else {
        out.push(0x30 + n / 100);
        out.push(0x30 + (n / 10) % 10);
        out.push(0x30 + n % 10);
    }
    assert(out@ =~= old(out)@ + spec_format_dec(n));
}

/// The lower-case hexadecimal digit with value `d`.
fn hex_digit(d: u16) -> (r: u8)
    requires
        d < 16,
    ensures
        r == hex_digit_of(d),
{
    if d < 10 {
        (0x30 + d) as u8
    } else {
        (0x57 + d) as u8
    }
}

/// Append the hexadecimal text of `g` to `out`.
fn push_hex(out: &mut Vec<u8>, g: u16)
    ensures
        final(out)@ == old(out)@ + spec_format_hex(g),
{
    if g < 0x10 {
        out.push(hex_digit(g));
    } else if g < 0x100 {
        out.push(hex_digit(g / 16));
        out.push(hex_digit(g % 16));
    } else if g < 0x1000 {
        out.push(hex_digit(g / 256));
        out.push(hex_digit((g / 16) % 16));
        out.push(hex_digit(g % 16));
    } else {
        out.push(hex_digit(g / 4096));
        out.push(hex_digit((g / 256) % 16));
        out.push(hex_digit((g / 16) % 16));
        out.push(hex_digit(g % 16));
    }
    assert(out@ =~= old(out)@ + spec_format_hex(g));
}

/// Dotted-decimal text of an IPv4 address.
pub fn format_v4(a: &Ipv4Address) -> (r: Vec<u8>)
    ensures
        r@ == spec_format_v4(*a),
{
    let mut out: Vec<u8> = Vec::new();
    push_dec(&mut out, a.o0);
    out.push(DOT);
    push_dec(&mut out, a.o1);
    out.push(DOT);
    push_dec(&mut out, a.o2);
    out.push(DOT);
    push_dec(&mut out, a.o3);
    assert(out@ =~= spec_format_v4(*a));
    out
}

/// Appending a group extends the joined text by a separator and its digits.
proof fn lemma_join_hex_snoc(groups: Seq<u16>, g: u16)
    requires
        groups.len() >= 1,
    ensures
        spec_join_hex(groups.push(g)) == spec_join_hex(groups) + seq![COLON] + spec_format_hex(g),
    decreases groups.len(),
{
    if groups.len() == 1 {
        assert(groups.push(g).drop_first() =~= seq![g]);
        assert(spec_join_hex(seq![g]) == spec_format_hex(g));
        assert(spec_join_hex(groups.push(g)) =~= spec_join_hex(groups) + seq![COLON]
            + spec_format_hex(g));
    } else {
        lemma_join_hex_snoc(groups.drop_first(), g);
        assert(groups.push(g).drop_first() =~= groups.drop_first().push(g));
        assert(spec_join_hex(groups.push(g)) =~= spec_join_hex(groups) + seq![COLON]
            + spec_format_hex(g));
    }
}

/// Full-form text of an IPv6 address.
pub fn format_v6(a: &Ipv6Address) -> (r: Vec<u8>)
    ensures
        r@ == spec_format_v6(*a),
{
    let mut out: Vec<u8> = Vec::new();
    let mut i: usize = 0;
    while i < 8
        invariant
            i <= 8,
            out@ == spec_join_hex(a@.take(i as int)),
        decreases 8 - i,
    {
        let ghost prefix = a@.take(i as int);
        if i > 0 {
            out.push(COLON);
        }
        push_hex(&mut out, a.group_at(i));
        proof {
            assert(a@.take(i + 1) =~= prefix.push(a@[i as int]));
            if i > 0 {
                lemma_join_hex_snoc(prefix, a@[i as int]);
            } else {
                assert(prefix.push(a@[0]) =~= seq![a@[0]]);
            }
            assert(out@ =~= spec_join_hex(a@.take(i + 1)));
        }
        i = i + 1;
    }
    assert(a@.take(8) =~= a@);
    out
}

/// The text of an address of either version.
pub fn format_ip(a: &IpAddress) -> (r: Vec<u8>)
    ensures
        r@ == spec_format_ip(*a),
{
    match a {
        IpAddress::V4(x) => format_v4(x),
        IpAddress::V6(x) => format_v6(x),
    }
}


/// Length of the prefix of `s` before its first `sep`, or all of `s` if none.
pub open spec fn seg_len(s: Seq<u8>, sep: u8) -> nat
    decreases s.len(),
{
    if s.len() == 0 {
        0
    } else if s[0] == sep {
        0
    } else {
        1 + seg_len(s.drop_first(), sep)
    }
}

/// Any index with the prefix-before-separator properties is the segment length.
pub proof fn lemma_seg_len_is(s: Seq<u8>, sep: u8, i: int)
    requires
        0 <= i <= s.len(),
        forall|k: int| 0 <= k < i ==> s[k] != sep,
        i < s.len() ==> s[i] == sep,
    ensures
        seg_len(s, sep) == i,
    decreases s.len(),
{
    if i == 0 {
    } else {
        assert(s[0] != sep);
        assert forall|k: int| 0 <= k < i - 1 implies s.drop_first()[k] != sep by {
            assert(s.drop_first()[k] == s[k + 1]);
        }
        if i - 1 < s.drop_first().len() {
            assert(s.drop_first()[i - 1] == s[i]);
        }
        lemma_seg_len_is(s.drop_first(), sep, i - 1);
    }
}

/// A separator-free prefix before a separator is the first segment.
pub proof fn lemma_seg_len_concat(a: Seq<u8>, rest: Seq<u8>, sep: u8)
    requires
        forall|k: int| 0 <= k < a.len() ==> a[k] != sep,
    ensures
        seg_len(a + seq![sep] + rest, sep) == a.len(),
{
    let s = a + seq![sep] + rest;
    assert forall|k: int| 0 <= k < a.len() implies s[k] != sep by {
        assert(s[k] == a[k]);
    }
    assert(s[a.len() as int] == sep);
    lemma_seg_len_is(s, sep, a.len() as int);
}

/// Position of the first `::` in `s`, or `s.len()` if there is none.
pub open spec fn dc_pos(s: Seq<u8>) -> nat
    decreases s.len(),
{
    if s.len() < 2 {
        s.len()
    } else if s[0] == COLON && s[1] == COLON {
        0
    } else {
        1 + dc_pos(s.drop_first())
    }
}

/// Any index with the first-double-colon properties is `dc_pos`.
pub proof fn lemma_dc_pos_is(s: Seq<u8>, i: int)
    requires
        0 <= i <= s.len(),
        i < s.len() ==> i + 1 < s.len() && s[i] == COLON && s[i + 1] == COLON,
        forall|k: int| 0 <= k && k + 1 < s.len() && k < i ==> !(#[trigger] s[k] == COLON && s[k + 1]
            == COLON),
    ensures
        dc_pos(s) == i,
    decreases s.len(),
{
    if s.len() < 2 {
    } else if s[0] == COLON && s[1] == COLON {
        assert(i == 0);
    } else {
        assert(i >= 1) by {
            if i == 0 {
                assert(s[0] == COLON && s[1] == COLON);
            }
        }
        let t = s.drop_first();
        assert forall|k: int| 0 <= k && k + 1 < t.len() && k < i - 1 implies !(#[trigger] t[k]
            == COLON && t[k + 1] == COLON) by {
            assert(t[k] == s[k + 1]);
            assert(t[k + 1] == s[k + 2]);
        }
        if i - 1 < t.len() {
            assert(t[i - 1] == s[i]);
            assert(t[i] == s[i + 1]);
        }
        lemma_dc_pos_is(t, i - 1);
    }
}

/// One to four hexadecimal digits as a 16-bit group value.
pub open spec fn spec_parse_hex16(s: Seq<u8>) -> Option<u16> {
    if s.len() == 1 && is_hex_digit(s[0]) {
        Some(hex_val(s[0]))
    } else if s.len() == 2 && is_hex_digit(s[0]) && is_hex_digit(s[1]) {
        Some((16 * hex_val(s[0]) + hex_val(s[1])) as u16)
    } else if s.len() == 3 && is_hex_digit(s[0]) && is_hex_digit(s[1]) && is_hex_digit(s[2]) {
        Some((256 * hex_val(s[0]) + 16 * hex_val(s[1]) + hex_val(s[2])) as u16)
    } else if s.len() == 4 && is_hex_digit(s[0]) && is_hex_digit(s[1]) && is_hex_digit(s[2])
        && is_hex_digit(s[3]) {
        Some(
            (4096 * hex_val(s[0]) + 256 * hex_val(s[1]) + 16 * hex_val(s[2]) + hex_val(
                s[3],
            )) as u16,
        )
    } else {
        None
    }
}

/// One to three decimal digits as an octet: no leading zero, at most 255.
pub open spec fn spec_parse_dec(s: Seq<u8>) -> Option<u8> {
    if s.len() == 1 && is_dec_digit(s[0]) {
        Some(dec_val(s[0]))
    } else if s.len() == 2 && is_dec_digit(s[0]) && is_dec_digit(s[1]) && s[0] != 0x30 {
        Some((10 * dec_val(s[0]) + dec_val(s[1])) as u8)
    } else if s.len() == 3 && is_dec_digit(s[0]) && is_dec_digit(s[1]) && is_dec_digit(s[2]) && s[0]
        != 0x30 && 100 * dec_val(s[0]) + 10 * dec_val(s[1]) + dec_val(s[2]) <= 255 {
        Some((100 * dec_val(s[0]) + 10 * dec_val(s[1]) + dec_val(s[2])) as u8)
    } else {
        None
    }
}

/// The dot-separated octets of `s`, or `None` if any part is malformed.
pub open spec fn spec_dec_parts(s: Seq<u8>) -> Option<Seq<u8>>
    decreases s.len(),
{
    let l = seg_len(s, DOT);
    match spec_parse_dec(s.take(l as int)) {
        None => None,
        Some(n) => if s.len() <= l {
            Some(seq![n])
        } else {
            match spec_dec_parts(s.skip(l as int + 1)) {
                None => None,
                Some(ns) => Some(seq![n] + ns),
            }
        },
    }
}

/// The colon-separated groups of `s`, or `None` if any part is malformed.
pub open spec fn spec_hex_groups(s: Seq<u8>) -> Option<Seq<u16>>
    decreases s.len(),
{
    let l = seg_len(s, COLON);
    match spec_parse_hex16(s.take(l as int)) {
        None => None,
        Some(g) => if s.len() <= l {
            Some(seq![g])
        } else {
            match spec_hex_groups(s.skip(l as int + 1)) {
                None => None,
                Some(gs) => Some(seq![g] + gs),
            }
        },
    }
}

/// Dotted-decimal text as an IPv4 address.
pub open spec fn spec_parse_v4(s: Seq<u8>) -> Option<Ipv4Address> {
    match spec_dec_parts(s) {
        Some(ns) => if ns.len() == 4 {
            Some(Ipv4Address { o0: ns[0], o1: ns[1], o2: ns[2], o3: ns[3] })
        } else {
            None
        },
        None => None,
    }
}

/// The IPv6 address with the given eight groups.
pub open spec fn spec_v6_from_groups(gs: Seq<u16>) -> Ipv6Address
    recommends
        gs.len() == 8,
{
    Ipv6Address {
        g0: gs[0],
        g1: gs[1],
        g2: gs[2],
        g3: gs[3],
        g4: gs[4],
        g5: gs[5],
        g6: gs[6],
        g7: gs[7],
    }
}

/// An IPv4 address embedded in IPv6 text stands for the last two groups.
pub open spec fn spec_v4_embed(a: Ipv4Address) -> Seq<u16> {
    seq![(256 * a.o0 + a.o1) as u16, (256 * a.o2 + a.o3) as u16]
}

/// The colon-separated groups of `s`, where the final part may also be an
/// embedded dotted-decimal IPv4 address standing for two groups.
pub open spec fn spec_hex_groups_v4_tail(s: Seq<u8>) -> Option<Seq<u16>>
    decreases s.len(),
{
    let l = seg_len(s, COLON);
    if s.len() <= l {
        match spec_parse_hex16(s.take(l as int)) {
            Some(g) => Some(seq![g]),
            None => match spec_parse_v4(s) {
                Some(a) => Some(spec_v4_embed(a)),
                None => None,
            },
        }
    } else {
        match spec_parse_hex16(s.take(l as int)) {
            None => None,
            Some(g) => match spec_hex_groups_v4_tail(s.skip(l as int + 1)) {
                None => None,
                Some(gs) => Some(seq![g] + gs),
            },
        }
    }
}

/// IPv6 text as an address: eight groups, or two shorter runs joined by `::`
/// standing for one or more zero groups; the final part may be an embedded
/// IPv4 address standing for the last two groups.
pub open spec fn spec_parse_v6(s: Seq<u8>) -> Option<Ipv6Address> {
    let dc = dc_pos(s);
    if dc >= s.len() {
        match spec_hex_groups_v4_tail(s) {
            Some(gs) => if gs.len() == 8 {
                Some(spec_v6_from_groups(gs))
            } else {
                None
            },
            None => None,
        }
    } else {
        let left = s.take(dc as int);
        let right = s.skip(dc as int + 2);
        let lg = if left.len() == 0 {
            Some(Seq::<u16>::empty())
        } else {
            spec_hex_groups(left)
        };
        let rg = if right.len() == 0 {
            Some(Seq::<u16>::empty())
        } else {
            spec_hex_groups_v4_tail(right)
        };
        match (lg, rg) {
            (Some(lgs), Some(rgs)) => if lgs.len() + rgs.len() <= 7 {
                Some(
                    spec_v6_from_groups(
                        lgs + Seq::new((8 - lgs.len() - rgs.len()) as nat, |i: int| 0u16) + rgs,
                    ),
                )
            } else {
                None
            },
            _ => None,
        }
    }
}

/// IP literal text of either version as an address.
pub open spec fn spec_parse_ip(s: Seq<u8>) -> Option<IpAddress> {
    match spec_parse_v4(s) {
        Some(a) => Some(IpAddress::V4(a)),
        None => match spec_parse_v6(s) {
            Some(b) => Some(IpAddress::V6(b)),
            None => None,
        },
    }
}


/// Whether `c` is a decimal digit.
fn is_dec(c: u8) -> (r: bool)
    ensures
        r == is_dec_digit(c),
{
    0x30 <= c && c <= 0x39
}

/// Whether `c` is a hexadecimal digit of either case.
fn is_hex(c: u8) -> (r: bool)
    ensures
        r == is_hex_digit(c),
{
    (0x30 <= c && c <= 0x39) || (0x61 <= c && c <= 0x66) || (0x41 <= c && c <= 0x46)
}

/// The value of the hexadecimal digit `c`.
fn hex_value(c: u8) -> (r: u16)
    requires
        is_hex_digit(c),
    ensures
        r == hex_val(c),
{
    if c <= 0x39 {
        (c - 0x30) as u16
    } else if c >= 0x61 {
        (c - 0x61 + 10) as u16
    } else {
        (c - 0x41 + 10) as u16
    }
}

/// Index of the first `sep` in `s[from..to]`, or `to` if there is none.
fn find_byte(s: &Vec<u8>, from: usize, to: usize, sep: u8) -> (r: usize)
    requires
        from <= to && to <= s.len(),
    ensures
        from <= r <= to,
        forall|k: int| from <= k < r ==> s@[k] != sep,
        r < to ==> s@[r as int] == sep,
{
    let mut i = from;
    while i < to
        invariant
            from <= i <= to <= s.len(),
            forall|k: int| from <= k < i ==> s@[k] != sep,
        decreases to - i,
    {
        if s[i] == sep {
            return i;
        }
        i = i + 1;
    }
    i
}

/// Index of the first `::` in `s`, or `s.len()` if there is none.
fn find_dc(s: &Vec<u8>) -> (r: usize)
    ensures
        r <= s.len(),
        r < s.len() ==> r + 1 < s.len() && s@[r as int] == COLON && s@[r as int + 1] == COLON,
        forall|k: int|
            0 <= k && k + 1 < s@.len() && k < r ==> !(#[trigger] s@[k] == COLON && s@[k + 1]
                == COLON),
{
    let n = s.len();
    if n < 2 {
        return n;
    }
    let mut i: usize = 0;
    while i < n - 1
        invariant
            i <= n - 1,
            n == s.len(),
            n >= 2,
            forall|k: int|
                0 <= k && k + 1 < s@.len() && k < i ==> !(#[trigger] s@[k] == COLON && s@[k + 1]
                    == COLON),
        decreases n - i,
    {
        if s[i] == COLON && s[i + 1] == COLON {
            return i;
        }
        i = i + 1;
    }
    n
}

/// The group value of the hexadecimal digits `s[from..to]`.
#[verifier::rlimit(40)]
fn parse_hex_range(s: &Vec<u8>, from: usize, to: usize) -> (r: Option<u16>)
    requires
        from <= to && to <= s.len(),
    ensures
        r == spec_parse_hex16(s@.subrange(from as int, to as int)),
{
    let ghost t = s@.subrange(from as int, to as int);
    proof {
        assert forall|k: int| 0 <= k < t.len() implies t[k] == s@[from + k] by {}
    }
    let len = to - from;
    if len == 1 {
        if is_hex(s[from]) {
            Some(hex_value(s[from]))
        } else {
            None
        }
    } else if len == 2 {
        if is_hex(s[from]) && is_hex(s[from + 1]) {
            Some(16 * hex_value(s[from]) + hex_value(s[from + 1]))
        } else {
            None
        }
    } else if len == 3 {
        if is_hex(s[from]) && is_hex(s[from + 1]) && is_hex(s[from + 2]) {
            Some(256 * hex_value(s[from]) + 16 * hex_value(s[from + 1]) + hex_value(s[from + 2]))
        } else {
            None
        }
    } else if len == 4 {
        if is_hex(s[from]) && is_hex(s[from + 1]) && is_hex(s[from + 2]) && is_hex(s[from + 3]) {
            Some(
                4096 * hex_value(s[from]) + 256 * hex_value(s[from + 1]) + 16 * hex_value(
                    s[from + 2],
                ) + hex_value(s[from + 3]),
            )
        } else {
            None
        }
    } else {
        None
    }
}

/// The octet value of the decimal digits `s[from..to]`.
fn parse_dec_range(s: &Vec<u8>, from: usize, to: usize) -> (r: Option<u8>)
    requires
        from <= to && to <= s.len(),
    ensures
        r == spec_parse_dec(s@.subrange(from as int, to as int)),
{
    let ghost t = s@.subrange(from as int, to as int);
    let len = to - from;
    if len == 1 {
        if is_dec(s[from]) {
            Some(s[from] - 0x30)
        } else {
            None
        }
    } else if len == 2 {
        if is_dec(s[from]) && is_dec(s[from + 1]) && s[from] != 0x30 {
            Some(10 * (s[from] - 0x30) + (s[from + 1] - 0x30))
        } else {
            None
        }
    } else if len == 3 {
        if is_dec(s[from]) && is_dec(s[from + 1]) && is_dec(s[from + 2]) && s[from] != 0x30 {
            let v: u16 = 100 * ((s[from] - 0x30) as u16) + 10 * ((s[from + 1] - 0x30) as u16) + ((s[
                from + 2] - 0x30) as u16);
            if v <= 255 {
                Some(v as u8)
            } else {
                None
            }
        } else {
            None
        }
    } else {
        None
    }
}

/// Prepending already-parsed groups to the outcome of parsing the rest.
pub open spec fn attach_groups(prefix: Seq<u16>, rest: Option<Seq<u16>>) -> Option<Seq<u16>> {
    match rest {
        None => None,
        Some(gs) => Some(prefix + gs),
    }
}

/// Parse `s[from..to]` as a `:`-separated run of hexadecimal groups.
fn parse_hex_groups(s: &Vec<u8>, from: usize, to: usize) -> (r: Option<Vec<u16>>)
    requires
        from <= to && to <= s.len(),
    ensures
        match r {
            Some(v) => spec_hex_groups(s@.subrange(from as int, to as int)) == Some(v@),
            None => spec_hex_groups(s@.subrange(from as int, to as int)) is None,
        },
{
    let ghost t = s@.subrange(from as int, to as int);
    let mut acc: Vec<u16> = Vec::new();
    let mut p = from;
    loop
        invariant
            from <= p <= to <= s.len(),
            t == s@.subrange(from as int, to as int),
            attach_groups(acc@, spec_hex_groups(s@.subrange(p as int, to as int)))
                == spec_hex_groups(t),
        decreases to - p,
    {
        let ghost rest = s@.subrange(p as int, to as int);
        let i = find_byte(s, p, to, COLON);
        proof {
            assert forall|k: int| 0 <= k < i - p implies rest[k] != COLON by {
                assert(rest[k] == s@[p + k]);
            }
            if i < to {
                assert(rest[i - p] == s@[i as int]);
            }
            lemma_seg_len_is(rest, COLON, i - p);
            assert(rest.take(i - p) =~= s@.subrange(p as int, i as int));
        }
        let g = parse_hex_range(s, p, i);
        match g {
            None => {
                proof {
                    assert(spec_hex_groups(rest) is None);
                }
                return None;
            },
            Some(gv) => {
                if i == to {
                    proof {
                        assert(spec_hex_groups(rest) == Some(seq![gv]));
                        assert(acc@ + seq![gv] =~= acc@.push(gv));
                    }
                    acc.push(gv);
                    return Some(acc);
                } else {
                    proof {
                        assert(rest.skip(i - p + 1) =~= s@.subrange(i as int + 1, to as int));
                        assert(spec_hex_groups(rest) == attach_groups(
                            seq![gv],
                            spec_hex_groups(s@.subrange(i as int + 1, to as int)),
                        ));
                        assert forall|gs: Seq<u16>|
                            true implies acc@ + (seq![gv] + gs) == acc@.push(gv) + gs by {
                            assert(acc@ + (seq![gv] + gs) =~= acc@.push(gv) + gs);
                        }
                    }
                    acc.push(gv);
                    p = i + 1;
                }
            },
        }
    }
}


/// Prepending already-parsed octets to the outcome of parsing the rest.
pub open spec fn attach_parts(prefix: Seq<u8>, rest: Option<Seq<u8>>) -> Option<Seq<u8>> {
    match rest {
        None => None,
        Some(ns) => Some(prefix + ns),
    }
}

/// Parse `s[from..to]` as a `.`-separated run of decimal octets.
fn parse_dec_parts(s: &Vec<u8>, from: usize, to: usize) -> (r: Option<Vec<u8>>)
    requires
        from <= to && to <= s.len(),
    ensures
        match r {
            Some(v) => spec_dec_parts(s@.subrange(from as int, to as int)) == Some(v@),
            None => spec_dec_parts(s@.subrange(from as int, to as int)) is None,
        },
{
    let ghost t = s@.subrange(from as int, to as int);
    let mut acc: Vec<u8> = Vec::new();
    let mut p = from;
    loop
        invariant
            from <= p <= to <= s.len(),
            t == s@.subrange(from as int, to as int),
            attach_parts(acc@, spec_dec_parts(s@.subrange(p as int, to as int)))
                == spec_dec_parts(t),
        decreases to - p,
    {
        let ghost rest = s@.subrange(p as int, to as int);
        let i = find_byte(s, p, to, DOT);
        proof {
            assert forall|k: int| 0 <= k < i - p implies rest[k] != DOT by {
                assert(rest[k] == s@[p + k]);
            }
            if i < to {
                assert(rest[i - p] == s@[i as int]);
            }
            lemma_seg_len_is(rest, DOT, i - p);
            assert(rest.take(i - p) =~= s@.subrange(p as int, i as int));
        }
        let n = parse_dec_range(s, p, i);
        match n {
            None => {
                proof {
                    assert(spec_dec_parts(rest) is None);
                }
                return None;
            },
            Some(nv) => {
                if i == to {
                    proof {
                        assert(spec_dec_parts(rest) == Some(seq![nv]));
                        assert(acc@ + seq![nv] =~= acc@.push(nv));
                    }
                    acc.push(nv);
                    return Some(acc);
                } else {
                    proof {
                        assert(rest.skip(i - p + 1) =~= s@.subrange(i as int + 1, to as int));
                        assert(spec_dec_parts(rest) == attach_parts(
                            seq![nv],
                            spec_dec_parts(s@.subrange(i as int + 1, to as int)),
                        ));
                        assert forall|ns: Seq<u8>|
                            true implies acc@ + (seq![nv] + ns) == acc@.push(nv) + ns by {
                            assert(acc@ + (seq![nv] + ns) =~= acc@.push(nv) + ns);
                        }
                    }
                    acc.push(nv);
                    p = i + 1;
                }
            },
        }
    }
}


/// Parse `s[from..to]` as a `:`-separated run of hexadecimal groups whose
/// final part may be an embedded dotted-decimal IPv4 address.
fn parse_hex_groups_v4_tail(s: &Vec<u8>, from: usize, to: usize) -> (r: Option<Vec<u16>>)
    requires
        from <= to && to <= s.len(),
    ensures
        match r {
            Some(v) => spec_hex_groups_v4_tail(s@.subrange(from as int, to as int)) == Some(v@),
            None => spec_hex_groups_v4_tail(s@.subrange(from as int, to as int)) is None,
        },
{
    let ghost t = s@.subrange(from as int, to as int);
    let mut acc: Vec<u16> = Vec::new();
    let mut p = from;
    loop
        invariant
            from <= p <= to <= s.len(),
            t == s@.subrange(from as int, to as int),
            attach_groups(acc@, spec_hex_groups_v4_tail(s@.subrange(p as int, to as int)))
                == spec_hex_groups_v4_tail(t),
        decreases to - p,
    {
        let ghost rest = s@.subrange(p as int, to as int);
        let i = find_byte(s, p, to, COLON);
        proof {
            assert forall|k: int| 0 <= k < i - p implies rest[k] != COLON by {
                assert(rest[k] == s@[p + k]);
            }
            if i < to {
                assert(rest[i - p] == s@[i as int]);
            }
            lemma_seg_len_is(rest, COLON, i - p);
            assert(rest.take(i - p) =~= s@.subrange(p as int, i as int));
        }
        let g = parse_hex_range(s, p, i);
        if i == to {
            match g {
                Some(gv) => {
                    proof {
                        assert(spec_hex_groups_v4_tail(rest) == Some(seq![gv]));
                        assert(acc@ + seq![gv] =~= acc@.push(gv));
                    }
                    acc.push(gv);
                    return Some(acc);
                },
                None => {
                    match parse_dec_parts(s, p, to) {
                        Some(v) => {
                            if v.len() == 4 {
                                let hi: u16 = 256 * (v[0] as u16) + (v[1] as u16);
                                let lo: u16 = 256 * (v[2] as u16) + (v[3] as u16);
                                proof {
                                    let a = Ipv4Address {
                                        o0: v@[0],
                                        o1: v@[1],
                                        o2: v@[2],
                                        o3: v@[3],
                                    };
                                    assert(spec_parse_v4(rest) == Some(a));
                                    assert(spec_hex_groups_v4_tail(rest) == Some(
                                        spec_v4_embed(a),
                                    ));
                                    assert(spec_v4_embed(a) =~= seq![hi, lo]);
                                    assert(acc@ + seq![hi, lo] =~= acc@.push(hi).push(lo));
                                }
                                acc.push(hi);
                                acc.push(lo);
                                return Some(acc);
                            } else {
                                proof {
                                    assert(spec_parse_v4(rest) is None);
                                    assert(spec_hex_groups_v4_tail(rest) is None);
                                }
                                return None;
                            }
                        },
                        None => {
                            proof {
                                assert(spec_parse_v4(rest) is None);
                                assert(spec_hex_groups_v4_tail(rest) is None);
                            }
                            return None;
                        },
                    }
                },
            }
        } else {
            match g {
                None => {
                    proof {
                        assert(spec_hex_groups_v4_tail(rest) is None);
                    }
                    return None;
                },
                Some(gv) => {
                    proof {
                        assert(rest.skip(i - p + 1) =~= s@.subrange(i as int + 1, to as int));
                        assert(spec_hex_groups_v4_tail(rest) == attach_groups(
                            seq![gv],
                            spec_hex_groups_v4_tail(s@.subrange(i as int + 1, to as int)),
                        ));
                        assert forall|gs: Seq<u16>|
                            true implies acc@ + (seq![gv] + gs) == acc@.push(gv) + gs by {
                            assert(acc@ + (seq![gv] + gs) =~= acc@.push(gv) + gs);
                        }
                    }
                    acc.push(gv);
                    p = i + 1;
                },
            }
        }
    }
}

/// Parse dotted-decimal IPv4 text.
pub fn parse_v4(s: &Vec<u8>) -> (r: Option<Ipv4Address>)
    ensures
        r == spec_parse_v4(s@),
{
    proof {
        assert(s@.subrange(0, s@.len() as int) =~= s@);
    }
    match parse_dec_parts(s, 0, s.len()) {
        None => None,
        Some(v) => {
            if v.len() == 4 {
                Some(Ipv4Address { o0: v[0], o1: v[1], o2: v[2], o3: v[3] })
            } else {
                None
            }
        },
    }
}

/// Parse IPv6 text, with or without a `::` run of zero groups.
pub fn parse_v6(s: &Vec<u8>) -> (r: Option<Ipv6Address>)
    ensures
        r == spec_parse_v6(s@),
{
    let n = s.len();
    let dc = find_dc(s);
    proof {
        lemma_dc_pos_is(s@, dc as int);
    }
    if dc == n {
        proof {
            assert(s@.subrange(0, n as int) =~= s@);
        }
        match parse_hex_groups_v4_tail(s, 0, n) {
            None => None,
            Some(v) => {
                if v.len() == 8 {
                    Some(
                        Ipv6Address {
                            g0: v[0],
                            g1: v[1],
                            g2: v[2],
                            g3: v[3],
                            g4: v[4],
                            g5: v[5],
                            g6: v[6],
                            g7: v[7],
                        },
                    )
                } else {
                    None
                }
            },
        }
    } else {
        let ghost left = s@.take(dc as int);
        let ghost right = s@.skip(dc as int + 2);
        let mut lg: Vec<u16> = Vec::new();
        if dc > 0 {
            proof {
                assert(s@.subrange(0, dc as int) =~= left);
            }
            match parse_hex_groups(s, 0, dc) {
                None => {
                    return None;
                },
                Some(v) => {
                    lg = v;
                },
            }
        }
        let mut rg: Vec<u16> = Vec::new();
        if dc + 2 < n {
            proof {
                assert(s@.subrange(dc as int + 2, n as int) =~= right);
            }
            match parse_hex_groups_v4_tail(s, dc + 2, n) {
                None => {
                    return None;
                },
                Some(v) => {
                    rg = v;
                },
            }
        }
        if lg.len() <= 7 && rg.len() <= 7 - lg.len() {
            let fill = 8 - lg.len() - rg.len();
            let ghost lgs = lg@;
            let ghost rgs = rg@;
            let mut gs: Vec<u16> = lg;
            let mut z: usize = 0;
            while z < fill
                invariant
                    z <= fill,
                    fill == 8 - lgs.len() - rgs.len(),
                    gs@ == lgs + Seq::new(z as nat, |i: int| 0u16),
                decreases fill - z,
            {
                gs.push(0);
                proof {
                    assert(lgs + Seq::new((z + 1) as nat, |i: int| 0u16) =~= (lgs + Seq::new(
                        z as nat,
                        |i: int| 0u16,
                    )).push(0u16));
                }
                z = z + 1;
            }
            let mut j: usize = 0;
            let rl = rg.len();
            while j < rl
                invariant
                    j <= rl,
                    rl == rgs.len(),
                    rg@ == rgs,
                    fill == 8 - lgs.len() - rgs.len(),
                    gs@ == lgs + Seq::new(fill as nat, |i: int| 0u16) + rgs.take(j as int),
                decreases rl - j,
            {
                let x = rg[j];
                gs.push(x);
                proof {
                    assert(lgs + Seq::new(fill as nat, |i: int| 0u16) + rgs.take(j + 1) =~= (lgs
                        + Seq::new(fill as nat, |i: int| 0u16) + rgs.take(j as int)).push(x));
                }
                j = j + 1;
            }
            proof {
                assert(rgs.take(rgs.len() as int) =~= rgs);
                assert(gs@ == lgs + Seq::new(fill as nat, |i: int| 0u16) + rgs);
                assert(gs@.len() == 8);
            }
            Some(
                Ipv6Address {
                    g0: gs[0],
                    g1: gs[1],
                    g2: gs[2],
                    g3: gs[3],
                    g4: gs[4],
                    g5: gs[5],
                    g6: gs[6],
                    g7: gs[7],
                },
            )
        } else {
            None
        }
    }
}

/// Parse an IP literal of either version.
pub fn parse_ip(s: &Vec<u8>) -> (r: Option<IpAddress>)
    ensures
        r == spec_parse_ip(s@),
{
    match parse_v4(s) {
        Some(a) => Some(IpAddress::V4(a)),
        None => match parse_v6(s) {
            Some(b) => Some(IpAddress::V6(b)),
            None => None,
        },
    }
}


use vstd::arithmetic::div_mod::{lemma_fundamental_div_mod, lemma_div_denominator};

/// The decimal text of an octet: one to three decimal digits, the first
/// nonzero whenever there is more than one.
proof fn lemma_dec_text(n: u8)
    ensures
        1 <= spec_format_dec(n).len() <= 3,
        forall|k: int|
            0 <= k < spec_format_dec(n).len() ==> is_dec_digit(#[trigger] spec_format_dec(n)[k]),
        spec_format_dec(n).len() > 1 ==> spec_format_dec(n)[0] != 0x30,
{
    let s = spec_format_dec(n);
    if n < 10 {
        assert(s[0] == dec_digit_of(n));
    } else if n < 100 {
        assert(1 <= n / 10 < 10);
        assert(s[0] == dec_digit_of(n / 10));
        assert(s[1] == dec_digit_of(n % 10));
    } else {
        assert(1 <= n / 100 <= 2);
        assert(s[0] == dec_digit_of(n / 100));
        assert(s[1] == dec_digit_of((n / 10) % 10));
        assert(s[2] == dec_digit_of(n % 10));
    }
}

/// Parsing the decimal text of an octet yields the octet back.
proof fn lemma_dec_round_trip(n: u8)
    ensures
        spec_parse_dec(spec_format_dec(n)) == Some(n),
{
    lemma_dec_text(n);
    let s = spec_format_dec(n);
    if n < 10 {
        assert(dec_val(dec_digit_of(n)) == n);
    } else if n < 100 {
        lemma_fundamental_div_mod(n as int, 10);
        assert(dec_val(s[0]) == n / 10);
        assert(dec_val(s[1]) == n % 10);
        assert(10 * dec_val(s[0]) + dec_val(s[1]) == n);
    } else {
        lemma_fundamental_div_mod(n as int, 10);
        lemma_fundamental_div_mod((n as int) / 10, 10);
        lemma_div_denominator(n as int, 10, 10);
        assert(dec_val(s[0]) == n / 100);
        assert(dec_val(s[1]) == (n / 10) % 10);
        assert(dec_val(s[2]) == n % 10);
        assert(100 * dec_val(s[0]) + 10 * dec_val(s[1]) + dec_val(s[2]) == n);
    }
}

/// The hexadecimal text of a group: one to four hexadecimal digits.
proof fn lemma_hex_text(g: u16)
    ensures
        1 <= spec_format_hex(g).len() <= 4,
        forall|k: int|
            0 <= k < spec_format_hex(g).len() ==> is_hex_digit(#[trigger] spec_format_hex(g)[k]),
{
    let s = spec_format_hex(g);
    if g < 0x10 {
        assert(s[0] == hex_digit_of(g));
    } else if g < 0x100 {
        assert(1 <= g / 16 < 16);
        assert(s[0] == hex_digit_of(g / 16));
        assert(s[1] == hex_digit_of(g % 16));
    } else if g < 0x1000 {
        assert(1 <= g / 256 < 16);
        assert(s[0] == hex_digit_of(g / 256));
        assert(s[1] == hex_digit_of((g / 16) % 16));
        assert(s[2] == hex_digit_of(g % 16));
    } else {
        assert(1 <= g / 4096 < 16);
        assert(s[0] == hex_digit_of(g / 4096));
        assert(s[1] == hex_digit_of((g / 256) % 16));
        assert(s[2] == hex_digit_of((g / 16) % 16));
        assert(s[3] == hex_digit_of(g % 16));
    }
}

/// Parsing the hexadecimal text of a group yields the group back.
proof fn lemma_hex_round_trip(g: u16)
    ensures
        spec_parse_hex16(spec_format_hex(g)) == Some(g),
{
    lemma_hex_text(g);
    let s = spec_format_hex(g);
    if g < 0x10 {
        assert(hex_val(hex_digit_of(g)) == g);
    } else if g < 0x100 {
        lemma_fundamental_div_mod(g as int, 16);
        assert(hex_val(s[0]) == g / 16);
        assert(hex_val(s[1]) == g % 16);
        assert(16 * hex_val(s[0]) + hex_val(s[1]) == g);
    } else if g < 0x1000 {
        lemma_fundamental_div_mod(g as int, 16);
        lemma_fundamental_div_mod((g as int) / 16, 16);
        lemma_div_denominator(g as int, 16, 16);
        assert(hex_val(s[0]) == g / 256);
        assert(hex_val(s[1]) == (g / 16) % 16);
        assert(hex_val(s[2]) == g % 16);
        assert(256 * hex_val(s[0]) + 16 * hex_val(s[1]) + hex_val(s[2]) == g);
    } else {
        lemma_fundamental_div_mod(g as int, 16);
        lemma_fundamental_div_mod((g as int) / 16, 16);
        lemma_fundamental_div_mod((g as int) / 256, 16);
        lemma_div_denominator(g as int, 16, 16);
        lemma_div_denominator(g as int, 256, 16);
        assert((g as int) / 16 / 16 == (g as int) / 256);
        assert((g as int) / 256 / 16 == (g as int) / 4096);
        assert(hex_val(s[0]) == g / 4096);
        assert(hex_val(s[1]) == (g / 256) % 16);
        assert(hex_val(s[2]) == (g / 16) % 16);
        assert(hex_val(s[3]) == g % 16);
        assert(4096 * hex_val(s[0]) + 256 * hex_val(s[1]) + 16 * hex_val(s[2]) + hex_val(s[3])
            == g);
    }
}

/// Parsing the dotted-decimal text of an IPv4 address yields the address back.
#[verifier::rlimit(60)]
pub proof fn lemma_v4_round_trip(a: Ipv4Address)
    ensures
        spec_parse_v4(spec_format_v4(a)) == Some(a),
{
    let f0 = spec_format_dec(a.o0);
    let f1 = spec_format_dec(a.o1);
    let f2 = spec_format_dec(a.o2);
    let f3 = spec_format_dec(a.o3);
    lemma_dec_text(a.o0);
    lemma_dec_text(a.o1);
    lemma_dec_text(a.o2);
    lemma_dec_text(a.o3);
    lemma_dec_round_trip(a.o0);
    lemma_dec_round_trip(a.o1);
    lemma_dec_round_trip(a.o2);
    lemma_dec_round_trip(a.o3);
    assert forall|k: int| 0 <= k < f0.len() implies f0[k] != DOT by {
        assert(is_dec_digit(f0[k]));
    }
    assert forall|k: int| 0 <= k < f1.len() implies f1[k] != DOT by {
        assert(is_dec_digit(f1[k]));
    }
    assert forall|k: int| 0 <= k < f2.len() implies f2[k] != DOT by {
        assert(is_dec_digit(f2[k]));
    }
    assert forall|k: int| 0 <= k < f3.len() implies f3[k] != DOT by {
        assert(is_dec_digit(f3[k]));
    }
    let s = spec_format_v4(a);
    let r1 = f1 + seq![DOT] + f2 + seq![DOT] + f3;
    let r2 = f2 + seq![DOT] + f3;
    assert(s =~= f0 + seq![DOT] + r1);
    assert(r1 =~= f1 + seq![DOT] + r2);
    lemma_seg_len_is(f3, DOT, f3.len() as int);
    assert(f3.take(f3.len() as int) =~= f3);
    assert(spec_dec_parts(f3) == Some(seq![a.o3]));
    lemma_seg_len_concat(f2, f3, DOT);
    assert(r2.take(f2.len() as int) =~= f2);
    assert(r2.skip(f2.len() as int + 1) =~= f3);
    assert(spec_dec_parts(r2) == Some(seq![a.o2] + seq![a.o3]));
    lemma_seg_len_concat(f1, r2, DOT);
    assert(r1.take(f1.len() as int) =~= f1);
    assert(r1.skip(f1.len() as int + 1) =~= r2);
    assert(spec_dec_parts(r1) == Some(seq![a.o1] + (seq![a.o2] + seq![a.o3])));
    lemma_seg_len_concat(f0, r1, DOT);
    assert(s.take(f0.len() as int) =~= f0);
    assert(s.skip(f0.len() as int + 1) =~= r1);
    assert(spec_dec_parts(s) == Some(seq![a.o0] + (seq![a.o1] + (seq![a.o2] + seq![a.o3]))));
    let parts = seq![a.o0] + (seq![a.o1] + (seq![a.o2] + seq![a.o3]));
    assert(parts =~= seq![a.o0, a.o1, a.o2, a.o3]);
    assert(spec_parse_v4(s) == Some(Ipv4Address { o0: a.o0, o1: a.o1, o2: a.o2, o3: a.o3 }));
}

/// The joined text of nonempty groups: hexadecimal digits and single colons,
/// never starting with a colon and never holding two in a row.
proof fn lemma_join_hex_text(groups: Seq<u16>)
    requires
        groups.len() >= 1,
    ensures
        spec_join_hex(groups).len() >= 2 * groups.len() - 1,
        spec_join_hex(groups)[0] != COLON,
        forall|k: int|
            0 <= k < spec_join_hex(groups).len() ==> (#[trigger] spec_join_hex(groups)[k] == COLON
                || is_hex_digit(spec_join_hex(groups)[k])),
        forall|k: int|
            0 <= k && k + 1 < spec_join_hex(groups).len() ==> !(#[trigger] spec_join_hex(
                groups,
            )[k] == COLON && spec_join_hex(groups)[k + 1] == COLON),
    decreases groups.len(),
{
    let s = spec_join_hex(groups);
    let f = spec_format_hex(groups[0]);
    lemma_hex_text(groups[0]);
    if groups.len() == 1 {
        assert forall|k: int| 0 <= k < s.len() implies (#[trigger] s[k] == COLON || is_hex_digit(
            s[k],
        )) by {
            assert(is_hex_digit(f[k]));
        }
        assert forall|k: int| 0 <= k && k + 1 < s.len() implies !(#[trigger] s[k] == COLON && s[k
            + 1] == COLON) by {
            assert(is_hex_digit(f[k]));
        }
    } else {
        lemma_join_hex_text(groups.drop_first());
        let rest = spec_join_hex(groups.drop_first());
        let m = f.len() as int;
        assert(s == f + seq![COLON] + rest);
        assert(s[0] == f[0]);
        assert(is_hex_digit(f[0]));
        assert forall|k: int| 0 <= k < s.len() implies (#[trigger] s[k] == COLON || is_hex_digit(
            s[k],
        )) by {
            if k < m {
                assert(s[k] == f[k]);
                assert(is_hex_digit(f[k]));
            } else if k > m {
                assert(s[k] == rest[k - m - 1]);
            }
        }
        assert forall|k: int| 0 <= k && k + 1 < s.len() implies !(#[trigger] s[k] == COLON && s[k
            + 1] == COLON) by {
            if k < m {
                assert(s[k] == f[k]);
                assert(is_hex_digit(f[k]));
            } else if k == m {
                assert(s[k + 1] == rest[0]);
            } else {
                assert(s[k] == rest[k - m - 1]);
                assert(s[k + 1] == rest[k - m]);
            }
        }
    }
}

/// Parsing the joined text of nonempty groups yields the groups back.
proof fn lemma_groups_round_trip(groups: Seq<u16>)
    requires
        groups.len() >= 1,
    ensures
        spec_hex_groups(spec_join_hex(groups)) == Some(groups),
    decreases groups.len(),
{
    let s = spec_join_hex(groups);
    let f = spec_format_hex(groups[0]);
    lemma_hex_text(groups[0]);
    lemma_hex_round_trip(groups[0]);
    assert forall|k: int| 0 <= k < f.len() implies f[k] != COLON by {
        assert(is_hex_digit(f[k]));
    }
    if groups.len() == 1 {
        lemma_seg_len_is(f, COLON, f.len() as int);
        assert(f.take(f.len() as int) =~= f);
        assert(spec_hex_groups(s) == Some(seq![groups[0]]));
        assert(seq![groups[0]] =~= groups);
    } else {
        let rest = spec_join_hex(groups.drop_first());
        lemma_groups_round_trip(groups.drop_first());
        lemma_seg_len_concat(f, rest, COLON);
        assert(s.take(f.len() as int) =~= f);
        assert(s.skip(f.len() as int + 1) =~= rest);
        assert(s.len() > f.len());
        assert(spec_hex_groups(s) == Some(seq![groups[0]] + groups.drop_first()));
        assert(seq![groups[0]] + groups.drop_first() =~= groups);
    }
}

/// Where the plain group grammar accepts, the embedded-tail grammar agrees.
proof fn lemma_hex_groups_v4_tail_agrees(s: Seq<u8>)
    requires
        spec_hex_groups(s) is Some,
    ensures
        spec_hex_groups_v4_tail(s) == spec_hex_groups(s),
    decreases s.len(),
{
    let l = seg_len(s, COLON);
    if s.len() <= l {
    } else {
        lemma_hex_groups_v4_tail_agrees(s.skip(l as int + 1));
    }
}

/// Parsing the full-form text of an IPv6 address yields the address back.
pub proof fn lemma_v6_round_trip(a: Ipv6Address)
    ensures
        spec_parse_v6(spec_format_v6(a)) == Some(a),
{
    let s = spec_format_v6(a);
    lemma_join_hex_text(a@);
    lemma_dc_pos_is(s, s.len() as int);
    lemma_groups_round_trip(a@);
    lemma_hex_groups_v4_tail_agrees(s);
    assert(spec_v6_from_groups(a@) == a);
}

/// Parsing the text of an address of either version yields it back.
pub proof fn lemma_ip_round_trip(a: IpAddress)
    ensures
        spec_parse_ip(spec_format_ip(a)) == Some(a),
{
    match a {
        IpAddress::V4(x) => {
            lemma_v4_round_trip(x);
        },
        IpAddress::V6(x) => {
            lemma_v6_round_trip(x);
            let s = spec_format_v6(x);
            lemma_join_hex_text(x@);
            assert forall|k: int| 0 <= k < s.len() implies s[k] != DOT by {
                assert(s[k] == COLON || is_hex_digit(s[k]));
            }
            lemma_seg_len_is(s, DOT, s.len() as int);
            assert(s.take(s.len() as int) =~= s);
            assert(s.len() >= 15);
            assert(spec_parse_dec(s) is None);
            assert(spec_dec_parts(s) is None);
            assert(spec_parse_v4(s) is None);
        },
    }
}

} // verus!
