//! The wire format: Ethernet frames carrying ARP requests, with or without
//! an 802.1Q tag, and the reading of ARP replies out of received frames.

use vstd::prelude::*;

use crate::addrs::Ipv4Address;
use crate::addrs::MacAddress;
use crate::options::ScanOptions;

verus! {

/// A 16-bit value on the wire: big endian.
pub open spec fn be16(v: u16) -> Seq<u8> {
    seq![(v / 256) as u8, (v % 256) as u8]
}

/// An IPv4 address on the wire: its four octets.
pub open spec fn ip_bytes(ip: Ipv4Address) -> Seq<u8> {
    seq![
        ip.spec_octets().0,
        ip.spec_octets().1,
        ip.spec_octets().2,
        ip.spec_octets().3,
    ]
}

/// The 28-byte ARP payload: hardware and protocol types and lengths, the
/// operation, then sender and target hardware and protocol addresses.
pub open spec fn arp_payload(
    htype: u16,
    ptype: u16,
    hlen: u8,
    plen: u8,
    oper: u16,
    sha: MacAddress,
    spa: Ipv4Address,
    tha: MacAddress,
    tpa: Ipv4Address,
) -> Seq<u8> {
    be16(htype) + be16(ptype) + seq![hlen, plen] + be16(oper) + sha.spec_octets() + ip_bytes(spa)
        + tha.spec_octets() + ip_bytes(tpa)
}

/// The 802.1Q tag control bytes: priority 1, not drop-eligible, and the
/// low twelve bits of the VLAN id.
pub open spec fn vlan_tci_bytes(v: u16) -> Seq<u8> {
    seq![(32 + (v as int % 4096) / 256) as u8, (v as int % 256) as u8]
}

/// The destination the frame is sent to: the override, or broadcast.
pub open spec fn resolved_target_mac(o: ScanOptions) -> MacAddress {
    match o.destination_mac {
        Some(m) => m,
        None => MacAddress(0xff, 0xff, 0xff, 0xff, 0xff, 0xff),
    }
}

/// The source the frame claims: the override, or the interface's address.
pub open spec fn resolved_source_mac(interface_mac: MacAddress, o: ScanOptions) -> MacAddress {
    match o.source_mac {
        Some(m) => m,
        None => interface_mac,
    }
}

/// The whole request frame for one target: Ethernet header, an 802.1Q tag
/// when a VLAN id was given, then the ARP payload with each field either
/// overridden by the options or at its conventional value.
pub open spec fn arp_request_frame(
    interface_mac: MacAddress,
    source_ip: Ipv4Address,
    target_ip: Ipv4Address,
    o: ScanOptions,
) -> Seq<u8> {
    let dst = resolved_target_mac(o);
    let src = resolved_source_mac(interface_mac, o);
    let payload = arp_payload(
        (match o.hw_type {
            Some(v) => v,
            None => 1,
        }),
        (match o.proto_type {
            Some(v) => v,
            None => 0x0800,
        }),
        (match o.hw_addr {
            Some(v) => v,
            None => 6,
        }),
        (match o.proto_addr {
            Some(v) => v,
            None => 4,
        }),
        (match o.arp_operation {
            Some(v) => v,
            None => 1,
        }),
        src,
        source_ip,
        dst,
        target_ip,
    );
    match o.vlan_id {
        Some(v) => dst.spec_octets() + src.spec_octets() + seq![0x81u8, 0x00u8] + vlan_tci_bytes(v)
            + seq![0x08u8, 0x06u8] + payload,
        None => dst.spec_octets() + src.spec_octets() + seq![0x08u8, 0x06u8] + payload,
    }
}

/// Append a 16-bit value, big endian.
fn push_be16(out: &mut Vec<u8>, v: u16)
    ensures
        final(out)@ == old(out)@ + be16(v),
{
    out.push((v / 256) as u8);
    out.push((v % 256) as u8);
    proof {
        assert(out@ =~= old(out)@ + be16(v));
    }
}

/// Append the six octets of a hardware address.
fn push_mac(out: &mut Vec<u8>, m: &MacAddress)
    ensures
        final(out)@ == old(out)@ + m.spec_octets(),
{
    out.push(m.0);
    out.push(m.1);
    out.push(m.2);
    out.push(m.3);
    out.push(m.4);
    out.push(m.5);
    proof {
        assert(out@ =~= old(out)@ + m.spec_octets());
    }
}

/// Append the four octets of an IPv4 address.
fn push_ip(out: &mut Vec<u8>, ip: &Ipv4Address)
    ensures
        final(out)@ == old(out)@ + ip_bytes(*ip),
{
    let o = ip.octets();
    out.push(o.0);
    out.push(o.1);
    out.push(o.2);
    out.push(o.3);
    proof {
        assert(out@ =~= old(out)@ + ip_bytes(*ip));
    }
}

/// Build the 28-byte ARP payload.
#[verifier::rlimit(100)]
#[verifier::spinoff_prover]
fn build_arp_payload(
    htype: u16,
    ptype: u16,
    hlen: u8,
    plen: u8,
    oper: u16,
    sha: &MacAddress,
    spa: &Ipv4Address,
    tha: &MacAddress,
    tpa: &Ipv4Address,
) -> (p: Vec<u8>)
    ensures
        p@ == arp_payload(htype, ptype, hlen, plen, oper, *sha, *spa, *tha, *tpa),
{
    let mut p: Vec<u8> = Vec::new();
    push_be16(&mut p, htype);
    push_be16(&mut p, ptype);
    p.push(hlen);
    p.push(plen);
    push_be16(&mut p, oper);
    push_mac(&mut p, sha);
    push_ip(&mut p, spa);
    push_mac(&mut p, tha);
    push_ip(&mut p, tpa);
    proof {
        assert(p@ =~= arp_payload(htype, ptype, hlen, plen, oper, *sha, *spa, *tha, *tpa));
    }
    p
}

/// Build the request frame for one target, ready for the datalink sender.
#[verifier::rlimit(100)]
#[verifier::spinoff_prover]
pub fn build_arp_request(
    interface_mac: &MacAddress,
    source_ip: &Ipv4Address,
    target_ip: &Ipv4Address,
    options: &ScanOptions,
) -> (frame: Vec<u8>)
    ensures
        frame@ == arp_request_frame(*interface_mac, *source_ip, *target_ip, *options),
        frame@.len() == (if options.vlan_id is Some {
            46int
        } else {
            42int
        }),
{
    let target_mac: MacAddress = match options.destination_mac {
        Some(m) => m,
        None => MacAddress::broadcast(),
    };
    let source_mac: MacAddress = match options.source_mac {
        Some(m) => m,
        None => *interface_mac,
    };
    let mut frame: Vec<u8> = Vec::new();
    push_mac(&mut frame, &target_mac);
    push_mac(&mut frame, &source_mac);
    match options.vlan_id {
        Some(v) => {
            frame.push(0x81);
            frame.push(0x00);
            let tci: u16 = 0x2000 + (v % 4096);
            push_be16(&mut frame, tci);
            frame.push(0x08);
            frame.push(0x06);
            proof {
                assert(be16(tci) =~= vlan_tci_bytes(v));
            }
        },
        None => {
            frame.push(0x08);
            frame.push(0x06);
        },
    }
    let htype: u16 = match options.hw_type {
        Some(x) => x,
        None => 1,
    };
    let ptype: u16 = match options.proto_type {
        Some(x) => x,
        None => 0x0800,
    };
    let hlen: u8 = match options.hw_addr {
        Some(x) => x,
        None => 6,
    };
    let plen: u8 = match options.proto_addr {
        Some(x) => x,
        None => 4,
    };
    let oper: u16 = match options.arp_operation {
        Some(x) => x,
        None => 1,
    };
    let mut payload = build_arp_payload(
        htype,
        ptype,
        hlen,
        plen,
        oper,
        &source_mac,
        source_ip,
        &target_mac,
        target_ip,
    );
    frame.append(&mut payload);
    proof {
        assert(frame@ =~= arp_request_frame(*interface_mac, *source_ip, *target_ip, *options));
    }
    frame
}

/// An untagged request frame is 42 bytes, and its Ethernet type field says
/// ARP.
pub proof fn lemma_frame_without_vlan(
    interface_mac: MacAddress,
    source_ip: Ipv4Address,
    target_ip: Ipv4Address,
    o: ScanOptions,
)
    requires
        o.vlan_id is None,
    ensures
        arp_request_frame(interface_mac, source_ip, target_ip, o).len() == 42,
        arp_request_frame(interface_mac, source_ip, target_ip, o)[12] == 0x08u8,
        arp_request_frame(interface_mac, source_ip, target_ip, o)[13] == 0x06u8,
{
}

/// A tagged request frame is 46 bytes; its Ethernet type field says 802.1Q;
/// its tag control bytes carry priority 1, no drop eligibility and the VLAN
/// id; and the inner type field says ARP.
pub proof fn lemma_frame_with_vlan(
    interface_mac: MacAddress,
    source_ip: Ipv4Address,
    target_ip: Ipv4Address,
    o: ScanOptions,
    v: u16,
)
    requires
        o.vlan_id == Some(v),
    ensures
        arp_request_frame(interface_mac, source_ip, target_ip, o).len() == 46,
        arp_request_frame(interface_mac, source_ip, target_ip, o)[12] == 0x81u8,
        arp_request_frame(interface_mac, source_ip, target_ip, o)[13] == 0x00u8,
        arp_request_frame(interface_mac, source_ip, target_ip, o)[14] as int * 256
            + arp_request_frame(interface_mac, source_ip, target_ip, o)[15] as int == 0x2000 + v
            % 4096,
        arp_request_frame(interface_mac, source_ip, target_ip, o)[16] == 0x08u8,
        arp_request_frame(interface_mac, source_ip, target_ip, o)[17] == 0x06u8,
{
    let frame = arp_request_frame(interface_mac, source_ip, target_ip, o);
    assert(frame[14] == (32 + (v as int % 4096) / 256) as u8);
    assert(frame[15] == (v as int % 256) as u8);
    assert((v as int % 4096) / 256 < 16) by {
        assert(v as int % 4096 < 4096);
    }
    assert((v as int % 4096) % 256 == v as int % 256) by {
        vstd::arithmetic::div_mod::lemma_mod_mod(v as int, 256, 16);
    }
    assert((32 + (v as int % 4096) / 256) * 256 + (v as int % 4096) % 256 == 0x2000 + v as int
        % 4096) by {
        vstd::arithmetic::div_mod::lemma_fundamental_div_mod(v as int % 4096, 256);
    }
}

/// Does the frame carry an Ethernet header whose type field says ARP?
pub open spec fn frame_is_arp(bytes: Seq<u8>) -> bool {
    bytes.len() >= 14 && bytes[12] == 0x08u8 && bytes[13] == 0x06u8
}

/// Does the frame have room for a whole ARP payload after its header?
pub open spec fn frame_has_arp_payload(bytes: Seq<u8>) -> bool {
    frame_is_arp(bytes) && bytes.len() >= 42
}

/// The sender hardware address a well-sized ARP frame reports.
pub open spec fn frame_sender_mac(bytes: Seq<u8>) -> MacAddress {
    MacAddress(bytes[22], bytes[23], bytes[24], bytes[25], bytes[26], bytes[27])
}

/// The sender protocol address a well-sized ARP frame reports.
pub open spec fn frame_sender_ip(bytes: Seq<u8>) -> Ipv4Address {
    Ipv4Address {
        value: (bytes[28] * 0x100_0000 + bytes[29] * 0x1_0000 + bytes[30] * 0x100
            + bytes[31]) as u32,
    }
}

/// The sender an ARP frame reports: its protocol and hardware addresses,
/// read from the payload behind the Ethernet header.
pub fn parse_arp_sender(buffer: &[u8]) -> (r: Option<(Ipv4Address, MacAddress)>)
    requires
        frame_has_arp_payload(buffer@),
    ensures
        r == Some((frame_sender_ip(buffer@), frame_sender_mac(buffer@))),
{
    let mac = MacAddress(buffer[22], buffer[23], buffer[24], buffer[25], buffer[26], buffer[27]);
    let ip = Ipv4Address::new(buffer[28], buffer[29], buffer[30], buffer[31]);
    Some((ip, mac))
}

} // verus!
