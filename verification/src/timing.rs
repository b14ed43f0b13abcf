//! The timing planner: from the host count and the user's rate intent,
//! derive the pause between requests and an estimate of the whole scan's
//! duration and bandwidth.

use vstd::prelude::*;
use vstd::arithmetic::div_mod::lemma_div_is_ordered;
use vstd::arithmetic::div_mod::lemma_div_nonincreasing;
use vstd::arithmetic::div_mod::lemma_div_multiples_vanish;
use vstd::arithmetic::div_mod::lemma_div_pos_is_pos;

use crate::options::ScanOptions;
use crate::options::ScanTiming;

verus! {

/// What the scan is expected to cost, computed before it starts.
pub struct ScanEstimation {
    pub interval_ms: u64,
    pub duration_ms: u128,
    pub request_size: u128,
    pub bandwidth: u128,
}

/// How many bytes one request frame takes under these options.
pub open spec fn packet_size_of(o: ScanOptions) -> int {
    if o.vlan_id is Some {
        46
    } else {
        42
    }
}

/// The cost in milliseconds assumed for emitting one request.
pub open spec fn avg_arp_ms() -> int {
    3
}

/// The cost in milliseconds assumed for the enrichment pass.
pub open spec fn avg_resolve_ms() -> int {
    500
}

/// How long the emission phase takes: fixed by the interval intent, or,
/// under a bandwidth intent, the time the whole request volume in bits
/// takes at that many bits per second.
pub open spec fn spec_request_phase_ms(host_count: int, retry: int, o: ScanOptions) -> int {
    match o.scan_timing {
        ScanTiming::Bandwidth(b) => host_count * packet_size_of(o) * 8 * 1000 / (b as int),
        ScanTiming::Interval(i) => host_count * (avg_arp_ms() + i) * retry,
    }
}

/// The pause between two requests: the interval intent itself, or the
/// bandwidth-derived per-request budget minus the assumed emission cost,
/// clamped at zero.
pub open spec fn spec_effective_interval_ms(host_count: int, retry: int, o: ScanOptions) -> int {
    match o.scan_timing {
        ScanTiming::Bandwidth(_) => {
            let per = spec_request_phase_ms(host_count, retry, o) / retry / host_count;
            if per >= avg_arp_ms() {
                per - avg_arp_ms()
            } else {
                0
            }
        },
        ScanTiming::Interval(i) => i as int,
    }
}

/// The bandwidth the scan will use: the intent itself, or the byte budget
/// over the emission phase under an interval intent.
pub open spec fn spec_estimated_bandwidth(host_count: int, retry: int, o: ScanOptions) -> int {
    match o.scan_timing {
        ScanTiming::Bandwidth(b) => b as int,
        ScanTiming::Interval(_) => host_count * packet_size_of(o) * 1000 / spec_request_phase_ms(
            host_count,
            retry,
            o,
        ),
    }
}

/// Estimate the scan's interval, duration, size and bandwidth before it
/// starts.  The duration covers the emission phase, the drain timeout and
/// the assumed enrichment cost.
pub fn compute_scan_estimation(host_count: u128, options: &ScanOptions) -> (r: ScanEstimation)
    requires
        1 <= host_count <= 0xFFFF_FFFF_FFFF_FFFF,
        options.retry_count >= 1,
        (options.scan_timing matches ScanTiming::Bandwidth(b) ==> b >= 1),
        (options.scan_timing matches ScanTiming::Interval(i) ==> host_count * (3 + i)
            * options.retry_count + options.timeout_ms + 500 <= u128::MAX),
    ensures
        r.request_size == host_count * packet_size_of(*options),
        r.interval_ms == spec_effective_interval_ms(
            host_count as int,
            options.retry_count as int,
            *options,
        ),
        r.bandwidth == spec_estimated_bandwidth(
            host_count as int,
            options.retry_count as int,
            *options,
        ),
        r.duration_ms == spec_request_phase_ms(host_count as int, options.retry_count as int, *options)
            + options.timeout_ms + avg_resolve_ms(),
{
    let retry: u128 = options.retry_count as u128;
    let request_size: u128 = if options.has_vlan() {
        host_count * 46
    } else {
        host_count * 42
    };
    let request_bits: u128 = request_size * 8;
    match options.scan_timing {
        ScanTiming::Bandwidth(b) => {
            let b128: u128 = b as u128;
            let request_phase: u128 = request_bits * 1000 / b128;
            proof {
                lemma_div_pos_is_pos((request_bits * 1000) as int, b128 as int);
                lemma_div_nonincreasing((request_phase / retry) as int, host_count as int);
                lemma_div_nonincreasing(request_phase as int, retry as int);
                lemma_div_is_ordered(
                    (request_phase / retry) as int,
                    request_phase as int,
                    host_count as int,
                );
                lemma_div_is_ordered(
                    request_phase as int,
                    (host_count * 368000) as int,
                    host_count as int,
                );
                lemma_div_is_ordered(
                    (request_bits * 1000) as int,
                    (host_count * 368000) as int,
                    b128 as int,
                );
                lemma_div_nonincreasing((host_count * 368000) as int, b128 as int);
                lemma_div_multiples_vanish(368000, host_count as int);
                lemma_div_pos_is_pos(request_phase as int, retry as int);
                lemma_div_pos_is_pos((request_phase / retry) as int, host_count as int);
            }
            let per: u128 = request_phase / retry / host_count;
            let interval: u128 = if per >= 3 {
                per - 3
            } else {
                0
            };
            proof {
                assert(per <= 368000);
            }
            ScanEstimation {
                interval_ms: interval as u64,
                duration_ms: request_phase + (options.timeout_ms as u128) + 500,
                request_size,
                bandwidth: b128,
            }
        },
        ScanTiming::Interval(i) => {
            let i128: u128 = i as u128;
            proof {
                assert(host_count * (3 + i128) <= host_count * (3 + i128) * retry)
                    by (nonlinear_arith)
                    requires
                        host_count >= 0,
                        i128 >= 0,
                        retry >= 1,
                ;
            }
            let request_phase: u128 = host_count * (3 + i128) * retry;
            proof {
                assert(request_phase >= 1) by (nonlinear_arith)
                    requires
                        request_phase == host_count * (3 + i128) * retry,
                        host_count >= 1,
                        i128 >= 0,
                        retry >= 1,
                ;
                assert(request_size * 1000 <= 0xFFFF_FFFF_FFFF_FFFF * 46000);
            }
            let bandwidth: u128 = request_size * 1000 / request_phase;
            ScanEstimation {
                interval_ms: i,
                duration_ms: request_phase + (options.timeout_ms as u128) + 500,
                request_size,
                bandwidth,
            }
        },
    }
}

} // verus!
