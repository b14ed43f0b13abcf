//! The receiver's side of the scan: counting frames, filtering ARP replies
//! and keeping one record per answering host, the most recent reply
//! winning.

use vstd::prelude::*;

use crate::addrs::Ipv4Address;
use crate::addrs::MacAddress;
use crate::frame::frame_has_arp_payload;
use crate::frame::frame_sender_ip;
use crate::frame::frame_sender_mac;
use crate::frame::parse_arp_sender;

verus! {

/// One answering host: its addresses from the reply, and what the
/// enrichment pass later finds out about it.
pub struct TargetDetails {
    pub ipv4: Ipv4Address,
    pub mac: MacAddress,
    pub hostname: Option<String>,
    pub vendor: Option<String>,
}

/// What the receiver counted: every frame seen, the ARP frames among them,
/// and how long the collection ran.
pub struct ResponseSummary {
    pub packet_count: usize,
    pub arp_count: usize,
    pub duration_ms: u128,
}

/// The map a list of records stands for: each sender address to its
/// hardware address, later records overwriting earlier ones.
pub open spec fn targets_map(s: Seq<TargetDetails>) -> Map<u32, MacAddress>
    decreases s.len(),
{
    if s.len() == 0 {
        Map::empty()
    } else {
        targets_map(s.drop_last()).insert(s.last().ipv4.value, s.last().mac)
    }
}

/// No two records answer for the same sender address.
pub open spec fn targets_unique(s: Seq<TargetDetails>) -> bool {
    forall|i: int, j: int|
        0 <= i < j < s.len() ==> (#[trigger] s[i]).ipv4.value != (#[trigger] s[j]).ipv4.value
}

/// The accumulator the receiver mutates: its records and its two counters.
pub struct ScanAccumulator {
    pub targets: Vec<TargetDetails>,
    pub packet_count: usize,
    pub arp_count: usize,
}

impl ScanAccumulator {
    /// One record per sender, and never more records than ARP frames, nor
    /// more ARP frames than frames.
    pub open spec fn wf(self) -> bool {
        &&& targets_unique(self.targets@)
        &&& self.targets@.len() <= self.arp_count <= self.packet_count
    }

    /// The map of discovered hosts the records stand for.
    pub open spec fn discovered(self) -> Map<u32, MacAddress> {
        targets_map(self.targets@)
    }

    /// An accumulator that has seen nothing.
    pub fn new() -> (r: ScanAccumulator)
        ensures
            r.wf(),
            r.packet_count == 0,
            r.arp_count == 0,
            r.targets@.len() == 0,
            r.discovered() == Map::<u32, MacAddress>::empty(),
    {
        ScanAccumulator { targets: Vec::new(), packet_count: 0, arp_count: 0 }
    }

    /// Record or overwrite the entry for one reply's sender.
    fn insert_target(&mut self, ip: Ipv4Address, mac: MacAddress)
        requires
            old(self).wf(),
            old(self).targets@.len() < old(self).arp_count,
        ensures
            final(self).wf(),
            final(self).packet_count == old(self).packet_count,
            final(self).arp_count == old(self).arp_count,
            final(self).discovered() == old(self).discovered().insert(ip.value, mac),
    {
        let fresh = TargetDetails { ipv4: ip, mac, hostname: None, vendor: None };
        let mut i: usize = 0;
        while i < self.targets.len()
            invariant
                i <= self.targets@.len(),
                *self == *old(self),
                old(self).wf(),
                forall|k: int|
                    0 <= k < i ==> (#[trigger] self.targets@[k]).ipv4.value != ip.value,
            decreases self.targets@.len() - i,
        {
            if self.targets[i].ipv4.value == ip.value {
                let replacement = TargetDetails { ipv4: ip, mac, hostname: None, vendor: None };
                let ghost before = self.targets@;
                self.targets[i] = replacement;
                proof {
                    lemma_targets_map_update(before, i as int, self.targets@[i as int]);
                    assert(self.targets@ =~= before.update(i as int, self.targets@[i as int]));
                    assert forall|a: int, b: int|
                        0 <= a < b < self.targets@.len() implies (#[trigger] self.targets@[a]).ipv4.value
                        != (#[trigger] self.targets@[b]).ipv4.value by {
                        assert(before[a].ipv4.value != before[b].ipv4.value);
                    }
                }
                return ;
            }
            i = i + 1;
        }
        let ghost before = self.targets@;
        self.targets.push(fresh);
        proof {
            assert(self.targets@.drop_last() =~= before);
            assert forall|a: int, b: int|
                0 <= a < b < self.targets@.len() implies (#[trigger] self.targets@[a]).ipv4.value
                != (#[trigger] self.targets@[b]).ipv4.value by {
                if b < self.targets@.len() - 1 {
                    assert(before[a].ipv4.value != before[b].ipv4.value);
                } else {
                    assert(self.targets@[b].ipv4.value == ip.value);
                    assert(before[a].ipv4.value != ip.value);
                }
            }
        }
    }

    /// Count one received frame, and when it is an ARP frame with a whole
    /// payload, count it among the ARP frames and record its sender, the
    /// newest reply overwriting any earlier record for the same address.
    /// An ARP-typed frame cut short of its payload counts as noise only.
    pub fn process_frame(&mut self, buffer: &[u8])
        requires
            old(self).wf(),
            old(self).packet_count < usize::MAX,
        ensures
            final(self).wf(),
            final(self).packet_count == old(self).packet_count + 1,
            final(self).arp_count == old(self).arp_count + (if frame_has_arp_payload(buffer@) {
                1int
            } else {
                0int
            }),
            (if frame_has_arp_payload(buffer@) {
                final(self).discovered() == old(self).discovered().insert(
                    frame_sender_ip(buffer@).value,
                    frame_sender_mac(buffer@),
                )
            } else {
                final(self).discovered() == old(self).discovered()
            }),
    {
        self.packet_count = self.packet_count + 1;
        if buffer.len() < 14 {
            return ;
        }
        let ethertype_hi: u8 = buffer[12];
        let ethertype_lo: u8 = buffer[13];
        if !(ethertype_hi == 0x08 && ethertype_lo == 0x06) {
            return ;
        }
        if buffer.len() < 42 {
            return ;
        }
        self.arp_count = self.arp_count + 1;
        match parse_arp_sender(buffer) {
            Some(sender) => {
                self.insert_target(sender.0, sender.1);
            },
            None => {},
        }
    }

    /// Close the accumulator: its counters and records, with the measured
    /// duration, become the scan's result.
    pub fn into_summary(self, duration_ms: u128) -> (r: (ResponseSummary, Vec<TargetDetails>))
        ensures
            r.0.packet_count == self.packet_count,
            r.0.arp_count == self.arp_count,
            r.0.duration_ms == duration_ms,
            r.1@ == self.targets@,
    {
        let summary = ResponseSummary {
            packet_count: self.packet_count,
            arp_count: self.arp_count,
            duration_ms,
        };
        (summary, self.targets)
    }
}

/// Never more records than ARP frames, nor more ARP frames than frames
/// seen.
pub proof fn lemma_counts_bounded(acc: ScanAccumulator)
    requires
        acc.wf(),
    ensures
        acc.targets@.len() <= acc.arp_count <= acc.packet_count,
{
}

/// Every record of a well-formed accumulator agrees with the map it stands
/// for: the record's hardware address is what the map holds for its sender
/// address.
pub proof fn lemma_targets_match_discovered(s: Seq<TargetDetails>, i: int)
    requires
        targets_unique(s),
        0 <= i < s.len(),
    ensures
        targets_map(s).dom().contains(s[i].ipv4.value),
        targets_map(s)[s[i].ipv4.value] == s[i].mac,
    decreases s.len(),
{
    if i == s.len() - 1 {
    } else {
        assert(s.drop_last()[i] == s[i]);
        assert(s[i].ipv4.value != s.last().ipv4.value);
        lemma_targets_match_discovered(s.drop_last(), i);
    }
}

/// Overwriting the record that answers for `t`'s sender address leaves the
/// map as if the new record had just been inserted.
proof fn lemma_targets_map_update(s: Seq<TargetDetails>, i: int, t: TargetDetails)
    requires
        targets_unique(s),
        0 <= i < s.len(),
        s[i].ipv4.value == t.ipv4.value,
    ensures
        targets_map(s.update(i, t)) == targets_map(s).insert(t.ipv4.value, t.mac),
    decreases s.len(),
{
    let k = t.ipv4.value;
    if i == s.len() - 1 {
        assert(s.update(i, t).drop_last() =~= s.drop_last());
        assert(s.update(i, t).last() == t);
        assert(targets_map(s.drop_last()).insert(k, s[i].mac).insert(k, t.mac) =~= targets_map(
            s.drop_last(),
        ).insert(k, t.mac));
    } else {
        let shorter = s.drop_last();
        assert(s.update(i, t).drop_last() =~= shorter.update(i, t));
        assert(s.update(i, t).last() == s.last());
        assert(shorter[i] == s[i]);
        lemma_targets_map_update(shorter, i, t);
        assert(s[i].ipv4.value != s.last().ipv4.value);
        assert(targets_map(shorter).insert(k, t.mac).insert(s.last().ipv4.value, s.last().mac)
            =~= targets_map(shorter).insert(s.last().ipv4.value, s.last().mac).insert(k, t.mac));
    }
}

/// The receiver's hostname policy: what the resolver answered is kept only
/// when it is a real name.  An answer that is itself an address literal
/// counts as no answer.
pub fn accept_hostname(hostname: String, is_address_literal: bool) -> (r: Option<String>)
    ensures
        is_address_literal ==> r is None,
        !is_address_literal ==> (match r {
            Some(h) => h@ == hostname@,
            None => false,
        }),
{
    if is_address_literal {
        None
    } else {
        Some(hostname)
    }
}

} // verus!
