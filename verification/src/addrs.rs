//! IPv4 and MAC address values as the scanner holds them on the wire, with
//! their textual forms: parsers for command-line fields and renderings for
//! the reports.

use vstd::prelude::*;

use crate::digits::all_dec_digits;
use crate::digits::dec_str;
use crate::digits::dec_value;
use crate::digits::digit_run;
use crate::digits::hex_pair_lower;
use crate::digits::append_dec_u128;
use crate::digits::append_hex_pair_lower;
use crate::digits::lemma_dec_value_digits3;
use crate::digits::parse_u64_range;
use crate::digits::parse_u64_spec;
use crate::digits::parse_u8_hex_range;
use crate::digits::parse_u8_radix16_spec;
use crate::digits::plus_stripped;
use crate::digits::run_until;
use crate::digits::scan_dec_digits;
use crate::digits::scan_until;

verus! {

/// An IPv4 address, stored as the 32-bit big-endian value of its four
/// dotted-quad octets.
#[derive(Clone, Copy, PartialEq, Eq, Structural, Debug)]
pub struct Ipv4Address {
    pub value: u32,
}

/// The numeric value of a dotted quad `a.b.c.d`.
pub open spec fn ipv4_value_of(a: u8, b: u8, c: u8, d: u8) -> int {
    a * 0x100_0000 + b * 0x1_0000 + c * 0x100 + d
}

impl Ipv4Address {
    /// The four octets of the address, most significant first.
    pub open spec fn spec_octets(self) -> (u8, u8, u8, u8) {
        (
            (self.value / 0x100_0000) as u8,
            ((self.value / 0x1_0000) % 0x100) as u8,
            ((self.value / 0x100) % 0x100) as u8,
            (self.value % 0x100) as u8,
        )
    }

    pub fn new(a: u8, b: u8, c: u8, d: u8) -> (r: Ipv4Address)
        ensures
            r.value == ipv4_value_of(a, b, c, d),
            r.spec_octets() == (a, b, c, d),
    {
        let value: u32 = (a as u32) * 0x100_0000 + (b as u32) * 0x1_0000 + (c as u32) * 0x100
            + (d as u32);
        proof {
            lemma_ipv4_value_octets(a, b, c, d);
        }
        Ipv4Address { value }
    }

    /// The four octets of the address, most significant first.
    pub fn octets(self) -> (r: (u8, u8, u8, u8))
        ensures
            r == self.spec_octets(),
    {
        (
            (self.value / 0x100_0000) as u8,
            ((self.value / 0x1_0000) % 0x100) as u8,
            ((self.value / 0x100) % 0x100) as u8,
            (self.value % 0x100) as u8,
        )
    }
}

/// A dotted quad is recovered, octet by octet, from its 32-bit value.
pub proof fn lemma_ipv4_value_octets(a: u8, b: u8, c: u8, d: u8)
    by (bit_vector)
    ensures
        ((a as u32) * 0x100_0000 + (b as u32) * 0x1_0000 + (c as u32) * 0x100 + (d as u32))
            / 0x100_0000 == a as u32,
        (((a as u32) * 0x100_0000 + (b as u32) * 0x1_0000 + (c as u32) * 0x100 + (d as u32))
            / 0x1_0000) % 0x100 == b as u32,
        (((a as u32) * 0x100_0000 + (b as u32) * 0x1_0000 + (c as u32) * 0x100 + (d as u32))
            / 0x100) % 0x100 == c as u32,
        ((a as u32) * 0x100_0000 + (b as u32) * 0x1_0000 + (c as u32) * 0x100 + (d as u32)) % 0x100
            == d as u32,
{
}

/// A 48-bit hardware address, one field per octet, most significant first.
#[derive(Clone, Copy, PartialEq, Eq, Structural, Debug)]
pub struct MacAddress(pub u8, pub u8, pub u8, pub u8, pub u8, pub u8);

impl MacAddress {
    /// The six octets as a sequence, most significant first.
    pub open spec fn spec_octets(self) -> Seq<u8> {
        seq![self.0, self.1, self.2, self.3, self.4, self.5]
    }

    /// The all-ones address that every station on the link receives.
    pub fn broadcast() -> (r: MacAddress)
        ensures
            r == (MacAddress(0xff, 0xff, 0xff, 0xff, 0xff, 0xff)),
    {
        MacAddress(0xff, 0xff, 0xff, 0xff, 0xff, 0xff)
    }
}

/// The octet standing at `from`, if one does: one to three decimal digits,
/// no leading zero, value at most 255.  Yields the value and the position
/// after the digits.
pub open spec fn octet_at(s: Seq<char>, from: int) -> Option<(u8, int)> {
    let l = digit_run(s, from);
    let t = s.subrange(from, from + l);
    if 1 <= l <= 3 && (l >= 2 ==> s[from] != '0') && dec_value(t) <= 255 {
        Some((dec_value(t) as u8, from + l))
    } else {
        None
    }
}

/// The dotted-quad interpretation of `s`: four octets joined by single
/// dots, nothing more.  This is how the standard library reads an IPv4
/// address from a string.
pub open spec fn spec_parse_ipv4(s: Seq<char>) -> Option<Ipv4Address> {
    match octet_at(s, 0) {
        Some(o0) => if o0.1 < s.len() && s[o0.1] == '.' {
            match octet_at(s, o0.1 + 1) {
                Some(o1) => if o1.1 < s.len() && s[o1.1] == '.' {
                    match octet_at(s, o1.1 + 1) {
                        Some(o2) => if o2.1 < s.len() && s[o2.1] == '.' {
                            match octet_at(s, o2.1 + 1) {
                                Some(o3) => if o3.1 == s.len() {
                                    Some(
                                        Ipv4Address {
                                            value: ipv4_value_of(o0.0, o1.0, o2.0, o3.0) as u32,
                                        },
                                    )
                                } else {
                                    None
                                },
                                None => None,
                            }
                        } else {
                            None
                        },
                        None => None,
                    }
                } else {
                    None
                },
                None => None,
            }
        } else {
            None
        },
        None => None,
    }
}

/// Read the octet standing at `from`.
fn parse_octet(s: &str, from: usize) -> (r: Option<(u8, usize)>)
    requires
        from <= s@.len(),
    ensures
        (match (r, octet_at(s@, from as int)) {
            (Some(rv), Some(sv)) => rv.0 == sv.0 && rv.1 as int == sv.1 && rv.1 <= s@.len(),
            (None, None) => true,
            _ => false,
        }),
{
    let _n: usize = s.unicode_len();
    let l = scan_dec_digits(s, from);
    if l < 1 || l > 3 {
        return None;
    }
    if l >= 2 && s.get_char(from) == '0' {
        return None;
    }
    let ghost t = s@.subrange(from as int, from as int + l as int);
    proof {
        lemma_dec_value_digits3(t);
        assert(t[0] == s@[from as int]);
        assert(plus_stripped(t) == t);
    }
    match parse_u64_range(s, from, from + l) {
        Some(v) => if v <= 255 {
            Some(((v as u8), from + l))
        } else {
            None
        },
        None => {
            proof {
                assert(false);
            }
            None
        },
    }
}

/// Read a dotted-quad IPv4 address, as the standard library would.
pub fn parse_ipv4(s: &str) -> (r: Option<Ipv4Address>)
    ensures
        r == spec_parse_ipv4(s@),
{
    let n = s.unicode_len();
    let o0 = match parse_octet(s, 0) {
        Some(x) => x,
        None => {
            return None;
        },
    };
    if o0.1 >= n || s.get_char(o0.1) != '.' {
        return None;
    }
    let o1 = match parse_octet(s, o0.1 + 1) {
        Some(x) => x,
        None => {
            return None;
        },
    };
    if o1.1 >= n || s.get_char(o1.1) != '.' {
        return None;
    }
    let o2 = match parse_octet(s, o1.1 + 1) {
        Some(x) => x,
        None => {
            return None;
        },
    };
    if o2.1 >= n || s.get_char(o2.1) != '.' {
        return None;
    }
    let o3 = match parse_octet(s, o2.1 + 1) {
        Some(x) => x,
        None => {
            return None;
        },
    };
    if o3.1 != n {
        return None;
    }
    Some(Ipv4Address::new(o0.0, o1.0, o2.0, o3.0))
}

/// The hardware-address component standing at `from`: everything up to the
/// next colon, read as one or more hexadecimal digits worth at most 255.
/// Yields the value and the position after the component.
pub open spec fn mac_part_at(s: Seq<char>, from: int) -> Option<(u8, int)> {
    let l = run_until(s, from, ':');
    match parse_u8_radix16_spec(s.subrange(from, from + l)) {
        Some(v) => Some((v, from + l)),
        None => None,
    }
}

/// The colon-separated interpretation of `s`: exactly six hardware-address
/// components.  This is how pnet reads a MAC address from a string.
pub open spec fn spec_parse_mac(s: Seq<char>) -> Option<MacAddress> {
    match mac_part_at(s, 0) {
        Some(p0) => if p0.1 < s.len() {
            match mac_part_at(s, p0.1 + 1) {
                Some(p1) => if p1.1 < s.len() {
                    match mac_part_at(s, p1.1 + 1) {
                        Some(p2) => if p2.1 < s.len() {
                            match mac_part_at(s, p2.1 + 1) {
                                Some(p3) => if p3.1 < s.len() {
                                    match mac_part_at(s, p3.1 + 1) {
                                        Some(p4) => if p4.1 < s.len() {
                                            match mac_part_at(s, p4.1 + 1) {
                                                Some(p5) => if p5.1 == s.len() {
                                                    Some(
                                                        MacAddress(
                                                            p0.0,
                                                            p1.0,
                                                            p2.0,
                                                            p3.0,
                                                            p4.0,
                                                            p5.0,
                                                        ),
                                                    )
                                                } else {
                                                    None
                                                },
                                                None => None,
                                            }
                                        } else {
                                            None
                                        },
                                        None => None,
                                    }
                                } else {
                                    None
                                },
                                None => None,
                            }
                        } else {
                            None
                        },
                        None => None,
                    }
                } else {
                    None
                },
                None => None,
            }
        } else {
            None
        },
        None => None,
    }
}

/// Read the hardware-address component standing at `from`.
fn parse_mac_part(s: &str, from: usize) -> (r: Option<(u8, usize)>)
    requires
        from <= s@.len(),
    ensures
        (match (r, mac_part_at(s@, from as int)) {
            (Some(rv), Some(sv)) => rv.0 == sv.0 && rv.1 as int == sv.1 && rv.1 <= s@.len(),
            (None, None) => true,
            _ => false,
        }),
{
    let _n: usize = s.unicode_len();
    let l = scan_until(s, from, ':');
    match parse_u8_hex_range(s, from, from + l) {
        Some(v) => Some((v, from + l)),
        None => None,
    }
}

/// Read a colon-separated MAC address, as pnet would.
pub fn parse_mac(s: &str) -> (r: Option<MacAddress>)
    ensures
        r == spec_parse_mac(s@),
{
    let n = s.unicode_len();
    let p0 = match parse_mac_part(s, 0) {
        Some(x) => x,
        None => {
            return None;
        },
    };
    if p0.1 >= n {
        return None;
    }
    let p1 = match parse_mac_part(s, p0.1 + 1) {
        Some(x) => x,
        None => {
            return None;
        },
    };
    if p1.1 >= n {
        return None;
    }
    let p2 = match parse_mac_part(s, p1.1 + 1) {
        Some(x) => x,
        None => {
            return None;
        },
    };
    if p2.1 >= n {
        return None;
    }
    let p3 = match parse_mac_part(s, p2.1 + 1) {
        Some(x) => x,
        None => {
            return None;
        },
    };
    if p3.1 >= n {
        return None;
    }
    let p4 = match parse_mac_part(s, p3.1 + 1) {
        Some(x) => x,
        None => {
            return None;
        },
    };
    if p4.1 >= n {
        return None;
    }
    let p5 = match parse_mac_part(s, p4.1 + 1) {
        Some(x) => x,
        None => {
            return None;
        },
    };
    if p5.1 != n {
        return None;
    }
    Some(MacAddress(p0.0, p1.0, p2.0, p3.0, p4.0, p5.0))
}

/// The dotted-quad rendering of an IPv4 address.
pub open spec fn ipv4_str(ip: Ipv4Address) -> Seq<char> {
    dec_str(ip.spec_octets().0 as int) + "."@ + dec_str(ip.spec_octets().1 as int) + "."@
        + dec_str(ip.spec_octets().2 as int) + "."@ + dec_str(ip.spec_octets().3 as int)
}

/// Render an IPv4 address as a dotted quad.
pub fn ipv4_string(ip: &Ipv4Address) -> (r: String)
    ensures
        r@ == ipv4_str(*ip),
{
    let o = ip.octets();
    let mut out = String::new();
    append_dec_u128(&mut out, o.0 as u128);
    out.append(".");
    append_dec_u128(&mut out, o.1 as u128);
    out.append(".");
    append_dec_u128(&mut out, o.2 as u128);
    out.append(".");
    append_dec_u128(&mut out, o.3 as u128);
    proof {
        assert(out@ =~= ipv4_str(*ip));
    }
    out
}

/// The rendering of a MAC address: six zero-padded lower-case hexadecimal
/// pairs joined by colons.
pub open spec fn mac_str(m: MacAddress) -> Seq<char> {
    hex_pair_lower(m.0) + ":"@ + hex_pair_lower(m.1) + ":"@ + hex_pair_lower(m.2) + ":"@
        + hex_pair_lower(m.3) + ":"@ + hex_pair_lower(m.4) + ":"@ + hex_pair_lower(m.5)
}

/// Render a MAC address in its usual colon-separated form.
pub fn mac_string(m: &MacAddress) -> (r: String)
    ensures
        r@ == mac_str(*m),
{
    let mut out = String::new();
    append_hex_pair_lower(&mut out, m.0);
    out.append(":");
    append_hex_pair_lower(&mut out, m.1);
    out.append(":");
    append_hex_pair_lower(&mut out, m.2);
    out.append(":");
    append_hex_pair_lower(&mut out, m.3);
    out.append(":");
    append_hex_pair_lower(&mut out, m.4);
    out.append(":");
    append_hex_pair_lower(&mut out, m.5);
    proof {
        assert(out@ =~= mac_str(*m));
    }
    out
}

} // verus!
