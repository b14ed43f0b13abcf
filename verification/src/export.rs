//! The result table as the formatters consume it: records sorted by
//! address, every field rendered to text.

use vstd::prelude::*;
use vstd::seq_lib::to_multiset_remove;
use vstd::seq_lib::to_multiset_insert;

use crate::accumulator::ResponseSummary;
use crate::accumulator::TargetDetails;
use crate::addrs::ipv4_str;
use crate::addrs::ipv4_string;
use crate::addrs::mac_str;
use crate::addrs::mac_string;

verus! {

/// Are the records in ascending address order?
pub open spec fn sorted_by_ip(s: Seq<TargetDetails>) -> bool {
    forall|i: int, j: int|
        0 <= i < j < s.len() ==> (#[trigger] s[i]).ipv4.value <= (#[trigger] s[j]).ipv4.value
}

/// Sort the records by address, in place, keeping exactly the records that
/// were there.
pub fn sort_targets(targets: &mut Vec<TargetDetails>)
    ensures
        sorted_by_ip(final(targets)@),
        final(targets)@.to_multiset() == old(targets)@.to_multiset(),
{
    let mut i: usize = 1;
    while i < targets.len()
        invariant
            1 <= i,
            targets@.to_multiset() == old(targets)@.to_multiset(),
            targets@.len() == old(targets)@.len(),
            sorted_by_ip(
                targets@.subrange(
                    0,
                    (if i as int <= targets@.len() {
                        i as int
                    } else {
                        targets@.len() as int
                    }),
                ),
            ),
        decreases targets@.len() - i,
    {
        let v: u32 = targets[i].ipv4.value;
        let mut p: usize = 0;
        while p < i && targets[p].ipv4.value <= v
            invariant
                p <= i < targets@.len(),
                forall|k: int| 0 <= k < p ==> (#[trigger] targets@[k]).ipv4.value <= v,
            decreases i - p,
        {
            p = p + 1;
        }
        let ghost before = targets@;
        let ghost prefix = before.subrange(0, i as int);
        let item = targets.remove(i);
        let ghost removed = targets@;
        targets.insert(p, item);
        proof {
            broadcast use vstd::multiset::group_multiset_axioms;

            to_multiset_remove(before, i as int);
            to_multiset_insert(removed, p as int, item);
            assert(before[i as int] == item);
            assert(before.contains(item));
            vstd::seq_lib::to_multiset_contains(before, item);
            assert(targets@.to_multiset() =~= before.to_multiset());
            assert(item.ipv4.value == v);
            assert forall|a: int|
                0 <= a < i + 1 implies (#[trigger] targets@[a]).ipv4.value == (if a < p {
                before[a].ipv4.value
            } else if a == p {
                v
            } else {
                before[a - 1].ipv4.value
            }) by {
                if a < p {
                    assert(removed[a] == before[a]);
                    assert(targets@[a] == removed[a]);
                } else if a == p {
                    assert(targets@[a] == item);
                } else {
                    assert(targets@[a] == removed[a - 1]);
                    assert(removed[a - 1] == before[a - 1]);
                }
            }
            if p < i {
                assert(before[p as int].ipv4.value > v);
            }
            assert forall|a: int, b: int|
                0 <= a < b < i + 1 implies (#[trigger] targets@[a]).ipv4.value
                <= (#[trigger] targets@[b]).ipv4.value by {
                assert(sorted_by_ip(prefix));
                if a < p && b < p {
                    assert(prefix[a] == before[a]);
                    assert(prefix[b] == before[b]);
                } else if a < p && b == p {
                    assert(targets@[a].ipv4.value <= v);
                } else if a < p && b > p {
                    assert(prefix[a] == before[a]);
                    if b - 1 < i {
                        assert(prefix[b - 1] == before[b - 1]);
                    }
                    if b - 1 >= p {
                        if b - 1 == a {
                        } else {
                            assert(prefix[a].ipv4.value <= prefix[b - 1].ipv4.value);
                        }
                    }
                } else if a == p && b > p {
                    if b - 1 >= p && b - 1 < i {
                        if p < i {
                            if b - 1 == p {
                                assert(before[p as int].ipv4.value > v);
                            } else {
                                assert(prefix[p as int].ipv4.value <= prefix[b - 1].ipv4.value);
                                assert(before[p as int].ipv4.value > v);
                            }
                        }
                    }
                } else {
                    assert(a > p && b > p);
                    if a - 1 < i && b - 1 < i {
                        if a - 1 == b - 1 {
                        } else {
                            assert(prefix[a - 1].ipv4.value <= prefix[b - 1].ipv4.value);
                        }
                    }
                }
            }
            assert(sorted_by_ip(targets@.subrange(0, i as int + 1)));
        }
        i = i + 1;
    }
    proof {
        if targets@.len() > 0 {
            assert(targets@.subrange(
                0,
                (if i as int <= targets@.len() {
                    i as int
                } else {
                    targets@.len() as int
                }),
            ) =~= targets@);
        }
    }
}

/// One record as every structured formatter renders it: all four fields as
/// text, absent ones empty.
pub struct SerializableResultItem {
    pub ipv4: String,
    pub mac: String,
    pub hostname: String,
    pub vendor: String,
}

/// The whole report: the receiver's counters and the rendered records.
pub struct SerializableGlobalResult {
    pub packet_count: usize,
    pub arp_count: usize,
    pub duration_ms: u128,
    pub results: Vec<SerializableResultItem>,
}

/// What a record's optional text field renders to: itself, or empty.
pub open spec fn text_or_empty(o: Option<String>) -> Seq<char> {
    match o {
        Some(s) => s@,
        None => Seq::empty(),
    }
}

/// Render the summary and the records for a structured formatter: counters
/// carried over, each record's addresses and names as text, in order.
pub fn get_serializable_result(
    response_summary: ResponseSummary,
    target_details: Vec<TargetDetails>,
) -> (r: SerializableGlobalResult)
    ensures
        r.packet_count == response_summary.packet_count,
        r.arp_count == response_summary.arp_count,
        r.duration_ms == response_summary.duration_ms,
        r.results@.len() == target_details@.len(),
        forall|i: int|
            0 <= i < target_details@.len() ==> {
                &&& (#[trigger] r.results@[i]).ipv4@ == ipv4_str(target_details@[i].ipv4)
                &&& r.results@[i].mac@ == mac_str(target_details@[i].mac)
                &&& r.results@[i].hostname@ == text_or_empty(target_details@[i].hostname)
                &&& r.results@[i].vendor@ == text_or_empty(target_details@[i].vendor)
            },
{
    let mut results: Vec<SerializableResultItem> = Vec::new();
    let mut i: usize = 0;
    while i < target_details.len()
        invariant
            i <= target_details@.len(),
            results@.len() == i,
            forall|k: int|
                0 <= k < i ==> {
                    &&& (#[trigger] results@[k]).ipv4@ == ipv4_str(target_details@[k].ipv4)
                    &&& results@[k].mac@ == mac_str(target_details@[k].mac)
                    &&& results@[k].hostname@ == text_or_empty(target_details@[k].hostname)
                    &&& results@[k].vendor@ == text_or_empty(target_details@[k].vendor)
                },
        decreases target_details@.len() - i,
    {
        let detail = &target_details[i];
        let hostname: String = match &detail.hostname {
            Some(h) => h.clone(),
            None => String::new(),
        };
        let vendor: String = match &detail.vendor {
            Some(v) => v.clone(),
            None => String::new(),
        };
        let item = SerializableResultItem {
            ipv4: ipv4_string(&detail.ipv4),
            mac: mac_string(&detail.mac),
            hostname,
            vendor,
        };
        results.push(item);
        i = i + 1;
    }
    SerializableGlobalResult {
        packet_count: response_summary.packet_count,
        arp_count: response_summary.arp_count,
        duration_ms: response_summary.duration_ms,
        results,
    }
}

} // verus!
