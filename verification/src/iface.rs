//! Interface selection: which interface the scan runs on and which source
//! address and networks it uses, decided over a plain picture of each
//! interface.

use vstd::prelude::*;

use crate::addrs::Ipv4Address;
use crate::options::ScanOptions;
use crate::range::Cidr;

verus! {

/// One address configured on an interface: an IPv4 network, or something
/// else the scanner cannot use.
pub enum InterfaceIp {
    V4(Cidr),
    Other,
}

/// What the scanner reads of one network interface.
pub struct InterfaceInfo {
    pub name: String,
    pub mac: Option<crate::addrs::MacAddress>,
    pub is_up: bool,
    pub is_loopback: bool,
    pub ips: Vec<InterfaceIp>,
}

/// Does the interface carry any IPv4 address?
pub open spec fn has_ipv4(ips: Seq<InterfaceIp>) -> bool {
    exists|k: int| 0 <= k < ips.len() && (#[trigger] ips[k]) is V4
}

/// Can a scan run on this interface unaided: a hardware address, at least
/// one address, up, not loopback, and an IPv4 among its addresses?
pub open spec fn eligible(i: InterfaceInfo) -> bool {
    i.mac is Some && i.ips@.len() > 0 && i.is_up && !i.is_loopback && has_ipv4(i.ips@)
}

/// Is `j` the first eligible position?
pub open spec fn first_eligible_at(s: Seq<InterfaceInfo>, j: int) -> bool {
    0 <= j < s.len() && eligible(s[j]) && (forall|k: int| 0 <= k < j ==> !eligible(#[trigger] s[k]))
}

/// At most one position is the first eligible one.
pub proof fn lemma_first_eligible_unique(s: Seq<InterfaceInfo>, a: int, b: int)
    requires
        first_eligible_at(s, a),
        first_eligible_at(s, b),
    ensures
        a == b,
{
    if a < b {
        assert(!eligible(s[a]));
    }
    if b < a {
        assert(!eligible(s[b]));
    }
}

/// Does the interface carry any IPv4 address, checked.
fn check_has_ipv4(ips: &Vec<InterfaceIp>) -> (r: bool)
    ensures
        r == has_ipv4(ips@),
{
    let mut k: usize = 0;
    while k < ips.len()
        invariant
            k <= ips@.len(),
            forall|m: int| 0 <= m < k ==> !((#[trigger] ips@[m]) is V4),
        decreases ips@.len() - k,
    {
        match &ips[k] {
            InterfaceIp::V4(_) => {
                return true;
            },
            InterfaceIp::Other => {},
        }
        k = k + 1;
    }
    false
}

/// The position of the first interface a scan can run on unaided, if any
/// can.
pub fn select_default_interface(interfaces: &Vec<InterfaceInfo>) -> (r: Option<usize>)
    ensures
        (match r {
            Some(ix) => first_eligible_at(interfaces@, ix as int),
            None => forall|k: int|
                0 <= k < interfaces@.len() ==> !eligible(#[trigger] interfaces@[k]),
        }),
{
    let mut i: usize = 0;
    while i < interfaces.len()
        invariant
            i <= interfaces@.len(),
            forall|k: int| 0 <= k < i ==> !eligible(#[trigger] interfaces@[k]),
        decreases interfaces@.len() - i,
    {
        let candidate = &interfaces[i];
        let ok = match &candidate.mac {
            Some(_) => candidate.ips.len() > 0 && candidate.is_up && !candidate.is_loopback
                && check_has_ipv4(&candidate.ips),
            None => false,
        };
        if ok {
            return Some(i);
        }
        i = i + 1;
    }
    None
}

/// The first IPv4 address configured on the interface.
pub open spec fn first_v4(ips: Seq<InterfaceIp>) -> Option<Ipv4Address>
    decreases ips.len(),
{
    if ips.len() == 0 {
        None
    } else {
        match ips[0] {
            InterfaceIp::V4(c) => Some(Ipv4Address { value: c.ip }),
            InterfaceIp::Other => first_v4(ips.drop_first()),
        }
    }
}

/// The source address the requests will claim: the override when one was
/// given, else the interface's first IPv4 address, else nothing, which ends
/// the scan before any emission.
pub fn find_source_ip(network_interface: &InterfaceInfo, forced_source_ipv4: Option<Ipv4Address>) -> (r:
    Option<Ipv4Address>)
    ensures
        (match forced_source_ipv4 {
            Some(ip) => r == Some(ip),
            None => r == first_v4(network_interface.ips@),
        }),
{
    if let Some(forced) = forced_source_ipv4 {
        return Some(forced);
    }
    let ips = &network_interface.ips;
    let mut k: usize = 0;
    proof {
        assert(ips@.subrange(0, ips@.len() as int) =~= ips@);
    }
    while k < ips.len()
        invariant
            k <= ips@.len(),
            forced_source_ipv4 is None,
            ips@ == network_interface.ips@,
            first_v4(ips@) == first_v4(ips@.subrange(k as int, ips@.len() as int)),
        decreases ips@.len() - k,
    {
        let ghost suffix = ips@.subrange(k as int, ips@.len() as int);
        proof {
            assert(suffix[0] == ips@[k as int]);
            assert(suffix.drop_first() =~= ips@.subrange(k as int + 1, ips@.len() as int));
        }
        match &ips[k] {
            InterfaceIp::V4(c) => {
                return Some(Ipv4Address { value: c.ip });
            },
            InterfaceIp::Other => {},
        }
        k = k + 1;
    }
    proof {
        assert(ips@.subrange(ips@.len() as int, ips@.len() as int) =~= Seq::<InterfaceIp>::empty());
    }
    None
}

/// Does this interface answer to the requested name while being usable?
pub open spec fn selection_match(i: InterfaceInfo, name: Seq<char>) -> bool {
    i.name@ == name && i.is_up && !i.is_loopback
}

/// The interface name the scan should run on: the requested one, or the
/// name of the first interface a scan can run on unaided.
pub open spec fn requested_name(s: Seq<InterfaceInfo>, o: ScanOptions) -> Option<Seq<char>> {
    match o.interface_name {
        Some(n) => Some(n@),
        None => if exists|j: int| first_eligible_at(s, j) {
            Some(s[choose|j: int| first_eligible_at(s, j)].name@)
        } else {
            None
        },
    }
}

/// The IPv4 networks configured on an interface, in order.
pub open spec fn v4_networks_of(ips: Seq<InterfaceIp>) -> Seq<Cidr>
    decreases ips.len(),
{
    if ips.len() == 0 {
        Seq::empty()
    } else {
        match ips[0] {
            InterfaceIp::V4(c) => seq![c] + v4_networks_of(ips.drop_first()),
            InterfaceIp::Other => v4_networks_of(ips.drop_first()),
        }
    }
}

/// Pick the interface the scan runs on, by its requested or default name,
/// and the networks it will scan: the requested ranges, or every IPv4
/// network configured on that interface.
pub fn compute_network_configuration(interfaces: &Vec<InterfaceInfo>, scan_options: &ScanOptions) -> (r:
    Result<(usize, Vec<Cidr>), String>)
    ensures
        (match (r, requested_name(interfaces@, *scan_options)) {
            (Err(e), None) => e@ == "Could not find a default network interface"@,
            (Err(e), Some(n)) => (forall|k: int|
                0 <= k < interfaces@.len() ==> !selection_match(#[trigger] interfaces@[k], n))
                && e@ == "Could not find interface with name "@ + n,
            (Ok(picked), Some(n)) => {
                let ix = picked.0;
                &&& ix < interfaces@.len()
                &&& selection_match(interfaces@[ix as int], n)
                &&& (forall|k: int|
                    0 <= k < ix ==> !selection_match(#[trigger] interfaces@[k], n))
                &&& (match scan_options.network_range {
                    Some(v) => picked.1@ == v@,
                    None => picked.1@ == v4_networks_of(interfaces@[ix as int].ips@),
                })
            },
            (Ok(_), None) => false,
        }),
{
    let interface_name: String = match &scan_options.interface_name {
        Some(n) => n.clone(),
        None => {
            match select_default_interface(interfaces) {
                Some(ix) => {
                    proof {
                        let j = choose|j: int| first_eligible_at(interfaces@, j);
                        lemma_first_eligible_unique(interfaces@, ix as int, j);
                    }
                    interfaces[ix].name.clone()
                },
                None => {
                    return Err(String::from_str("Could not find a default network interface"));
                },
            }
        },
    };
    let ghost n = interface_name@;
    let mut i: usize = 0;
    let mut selected: Option<usize> = None;
    while i < interfaces.len()
        invariant
            i <= interfaces@.len(),
            n == interface_name@,
            (match requested_name(interfaces@, *scan_options) {
                Some(m) => m == n,
                None => false,
            }),
            (match selected {
                Some(ix) => ix < i && selection_match(interfaces@[ix as int], n) && (forall|k: int|
                    0 <= k < ix ==> !selection_match(#[trigger] interfaces@[k], n)),
                None => forall|k: int|
                    0 <= k < i ==> !selection_match(#[trigger] interfaces@[k], n),
            }),
        decreases interfaces@.len() - i,
    {
        if selected.is_none() {
            let candidate = &interfaces[i];
            if candidate.name.eq(&interface_name) && candidate.is_up && !candidate.is_loopback {
                selected = Some(i);
            }
        }
        i = i + 1;
    }
    let ix = match selected {
        Some(ix) => ix,
        None => {
            let mut msg = String::from_str("Could not find interface with name ");
            msg.append(interface_name.as_str());
            return Err(msg);
        },
    };
    let networks: Vec<Cidr> = match &scan_options.network_range {
        Some(requested) => {
            let mut copied: Vec<Cidr> = Vec::new();
            let mut k: usize = 0;
            while k < requested.len()
                invariant
                    k <= requested@.len(),
                    copied@ =~= requested@.subrange(0, k as int),
                decreases requested@.len() - k,
            {
                copied.push(requested[k]);
                proof {
                    assert(copied@ =~= requested@.subrange(0, k as int + 1));
                }
                k = k + 1;
            }
            proof {
                assert(copied@ =~= requested@);
            }
            copied
        },
        None => {
            let ips = &interfaces[ix].ips;
            let mut collected: Vec<Cidr> = Vec::new();
            let mut k: usize = 0;
            proof {
                assert(ips@.subrange(0, ips@.len() as int) =~= ips@);
            }
            while k < ips.len()
                invariant
                    k <= ips@.len(),
                    v4_networks_of(ips@) =~= collected@ + v4_networks_of(
                        ips@.subrange(k as int, ips@.len() as int),
                    ),
                decreases ips@.len() - k,
            {
                let ghost suffix = ips@.subrange(k as int, ips@.len() as int);
                proof {
                    assert(suffix[0] == ips@[k as int]);
                    assert(suffix.drop_first() =~= ips@.subrange(k as int + 1, ips@.len() as int));
                }
                let ghost before = collected@;
                match &ips[k] {
                    InterfaceIp::V4(c) => {
                        collected.push(*c);
                        proof {
                            assert(before + (seq![*c] + v4_networks_of(suffix.drop_first()))
                                =~= collected@ + v4_networks_of(suffix.drop_first()));
                        }
                    },
                    InterfaceIp::Other => {},
                }
                k = k + 1;
            }
            proof {
                assert(ips@.subrange(ips@.len() as int, ips@.len() as int)
                    =~= Seq::<InterfaceIp>::empty());
                assert(collected@ + Seq::<Cidr>::empty() =~= collected@);
            }
            collected
        },
    };
    Ok((ix, networks))
}

} // verus!
